use eleph_gen_wordpress::ir::{
    EntityDefinition, EnumSource, FieldDefinition, IrMap, Managed, Origin, Primitive,
    ProjectDefinition, Schema, StorageDefinition, TerminalRule, TypeDefinition, TypeReference,
};
use eleph_gen_wordpress::json::Json;
use eleph_gen_wordpress::storage;
use eleph_gen_wordpress::storage::{column_type, generate, index, pairs, size, table_expr, Table};

fn map<T>(entries: Vec<(&str, T)>) -> IrMap<T> {
    IrMap {
        entries: entries
            .into_iter()
            .map(|(k, v)| (k.to_string(), v))
            .collect(),
    }
}

fn strings(v: &[&str]) -> Vec<String> {
    v.iter().map(|s| s.to_string()).collect()
}

fn entity(name: &str, table: &str) -> EntityDefinition {
    EntityDefinition {
        name: name.to_string(),
        storage: StorageDefinition {
            driver: "wordpress".to_string(),
            table: table.to_string(),
            handle: None,
        },
        source_file: format!("{table}.yml"),
        description: None,
        uses: vec![],
        fields: map(vec![]),
        edges: map(vec![]),
        queries: map(vec![]),
        actions: map(vec![]),
        triggers: map(vec![]),
        config: map(vec![]),
        integrations: map(vec![]),
        applied_patterns: vec![],
        read_policies: map(vec![]),
        write_policies: map(vec![]),
        terminal_read: TerminalRule::Deny,
        terminal_write: TerminalRule::Deny,
    }
}

fn field(name: &str, primitive: Option<Primitive>, declared: Option<&str>) -> FieldDefinition {
    FieldDefinition {
        name: name.to_string(),
        ty: TypeReference {
            primitive,
            declared_type: declared.map(str::to_string),
        },
        origin: Origin {
            pattern: None,
            file: "item.yml".to_string(),
        },
        description: None,
        required: false,
        nullable: false,
        default_value: Json::Null,
        has_default: false,
        unique: false,
        indexed: false,
        immutable: false,
        managed: None,
        max_length: None,
        enum_source: None,
        verify: false,
    }
}

fn schema(entities: Vec<(&str, EntityDefinition)>, types: Vec<(&str, TypeDefinition)>) -> Schema {
    Schema {
        project: ProjectDefinition {
            name: "Demo".to_string(),
            driver: "wordpress".to_string(),
            source_file: "project.yml".to_string(),
            integrations: map(vec![]),
            table_prefix: String::new(),
            description: None,
        },
        entities: map(entities),
        types: map(types),
        patterns: map(vec![]),
    }
}

fn color_type(values: Option<Vec<String>>) -> TypeDefinition {
    TypeDefinition {
        name: "Color".to_string(),
        primitive: Primitive::Enum,
        source_file: "types.yml".to_string(),
        description: None,
        has_processors: false,
        values,
    }
}

#[test]
fn columns_and_indexes_are_php_constructor_calls() {
    assert_eq!(
        storage::column("id", "BIGINT UNSIGNED", false, true),
        "new Column('id', 'BIGINT UNSIGNED', false, true, null)"
    );
    let (name, expr) = index("item", "wp_post_id", &strings(&["wp_post_id"]), true);
    assert_eq!(name, "item_wp_post_id_uniq");
    assert_eq!(expr, "new Index('item_wp_post_id_uniq', ['wp_post_id'], true)");
    let (name, expr) = index("item_tags", "pair", &strings(&["item_id", "tag_id"]), false);
    assert_eq!(name, "item_tags_pair_idx");
    assert_eq!(expr, "new Index('item_tags_pair_idx', ['item_id', 'tag_id'], false)");
}

#[test]
fn index_names_are_cut_to_64_characters() {
    let table = "t".repeat(70);
    let (name, _) = index(&table, "key", &strings(&["key"]), false);
    assert_eq!(name, "t".repeat(64));
    let (name, _) = index(&"a".repeat(55), "code", &strings(&["code"]), true);
    assert_eq!(name.chars().count(), 64);
    assert_eq!(name, format!("{}_code_uni", "a".repeat(55)));
}

#[test]
fn enum_sizes_follow_the_longest_value_in_bytes() {
    assert_eq!(size(&strings(&["red", "green"])), "VARCHAR(5)");
    assert_eq!(size(&strings(&[])), "VARCHAR(64)");
    assert_eq!(size(&strings(&[""])), "VARCHAR(1)");
    assert_eq!(size(&strings(&["é"])), "VARCHAR(2)");
}

#[test]
fn pairs_and_tables() {
    let entries = vec![
        ("a".to_string(), "1".to_string()),
        ("b".to_string(), "2".to_string()),
    ];
    assert_eq!(pairs(&entries, 2), "  'a' => 1,\n  'b' => 2,");
    assert_eq!(pairs(&vec![], 2), "");
    let t = Table {
        name: "t".to_string(),
        columns: vec![("id".to_string(), "X".to_string())],
        indexes: vec![],
        primary: "id".to_string(),
    };
    assert_eq!(
        table_expr(&t),
        "new TableSchema(\n            't',\n            [\n                'id' => X,\n            ],\n            [\n\n            ],\n            'id',\n        )"
    );
}

#[test]
fn column_types_from_primitives_and_declared_types() {
    let s = schema(
        vec![],
        vec![("Color", color_type(Some(strings(&["red", "yellow"]))))],
    );
    let mut f = field("title", Some(Primitive::String), None);
    assert_eq!(column_type(&s, &f).unwrap(), "VARCHAR(255)");
    f.max_length = Some(100);
    assert_eq!(column_type(&s, &f).unwrap(), "VARCHAR(100)");
    f.max_length = Some(-1);
    assert_eq!(column_type(&s, &f).unwrap(), "VARCHAR(255)");
    let f = field("on", Some(Primitive::Bool), None);
    assert_eq!(column_type(&s, &f).unwrap(), "TINYINT(1)");
    let f = field("at", Some(Primitive::Datetime), None);
    assert_eq!(column_type(&s, &f).unwrap(), "DATETIME");
    let f = field("data", Some(Primitive::Json), None);
    assert_eq!(column_type(&s, &f).unwrap(), "LONGTEXT");
    let f = field("owner", Some(Primitive::Id), None);
    assert_eq!(column_type(&s, &f).unwrap(), "BIGINT UNSIGNED");
    let f = field("color", None, Some("Color"));
    assert_eq!(column_type(&s, &f).unwrap(), "VARCHAR(6)");
    let mut f = field("shade", Some(Primitive::Enum), None);
    assert_eq!(column_type(&s, &f).unwrap(), "VARCHAR(64)");
    f.enum_source = Some(EnumSource {
        inline_values: None,
        declared_type: Some("Color".to_string()),
    });
    assert_eq!(column_type(&s, &f).unwrap(), "VARCHAR(6)");
    f.enum_source = Some(EnumSource {
        inline_values: Some(strings(&["ab"])),
        declared_type: None,
    });
    assert_eq!(column_type(&s, &f).unwrap(), "VARCHAR(2)");
    let f = field("size", None, Some("Size"));
    assert_eq!(
        column_type(&s, &f).err().unwrap(),
        "Field size references declared type \"Size\", which the schema compiler should already have proved exists."
    );
}

fn empty_section(name: &str) -> String {
    format!("    {name}: [\n\n    ],\n")
}

#[test]
fn manifest_of_one_entity() {
    let s = schema(vec![("Item", entity("Item", "item"))], vec![]);
    let expected = format!(
        "namespace Eleph\\WordPress\\Manifest;\n\nuse Eleph\\WordPress\\Account\\AccountFields;\nuse Eleph\\WordPress\\Sql\\Column;\nuse Eleph\\WordPress\\Sql\\EdgePlacement;\nuse Eleph\\WordPress\\Sql\\Index;\nuse Eleph\\WordPress\\Sql\\TableSchema;\nuse Eleph\\WordPress\\Taxonomy\\TaxonomyPlacement;\nuse Eleph\\Runtime\\Storage\\RelationKind;\n\n/* header */\nreturn new StorageManifest(\n    tables: [\n        'Item' => new TableSchema(\n            'item',\n            [\n                'id' => new Column('id', 'BIGINT UNSIGNED', false, true, null),\n            ],\n            [\n\n            ],\n            'id',\n        ),\n    ],\n{}{}{}{}{}{}{});\n",
        empty_section("placements"),
        empty_section("columns"),
        empty_section("joinTables"),
        empty_section("taxonomies"),
        empty_section("taxonomyPlacements"),
        empty_section("accounts"),
        empty_section("posts"),
    );
    assert_eq!(generate(&s, "/* header */\n").unwrap(), expected);
}

#[test]
fn sections_are_sorted_by_entity_name() {
    let mut zed = entity("Zed", "zed");
    zed.fields = map(vec![("title", field("title", Some(Primitive::Text), None))]);
    let mut alpha = entity("Alpha", "alpha");
    alpha.fields = map(vec![("title", field("title", Some(Primitive::Text), None))]);
    let s = schema(vec![("Zed", zed), ("Alpha", alpha)], vec![]);
    let m = generate(&s, "").unwrap();
    let a = m.find("'Alpha' => new TableSchema").unwrap();
    let z = m.find("'Zed' => new TableSchema").unwrap();
    assert!(a < z);
    assert!(m.contains("    columns: [\n        'Alpha' => ['title' => 'title'],\n        'Zed' => ['title' => 'title'],\n    ],\n"));
}

#[test]
fn fields_that_share_a_column_are_refused() {
    let mut item = entity("Item", "item");
    item.fields = map(vec![
        ("postId", field("postId", Some(Primitive::Int), None)),
        ("post_id", field("post_id", Some(Primitive::Int), None)),
    ]);
    let s = schema(vec![("Item", item)], vec![]);
    assert_eq!(
        generate(&s, "").err().unwrap(),
        "Fields Item.post_id and another map to the same column \"post_id\"."
    );
    let mut item = entity("Item", "item");
    item.fields = map(vec![("id", field("id", Some(Primitive::Int), None))]);
    let s = schema(vec![("Item", item)], vec![]);
    assert!(generate(&s, "").err().unwrap().contains("same column \"id\""));
}

#[test]
fn indexed_fields_and_accounts() {
    let mut account = entity("User", "user");
    account.config = map(vec![("account", Json::Bool(true))]);
    let mut created = field("createdAt", Some(Primitive::Datetime), None);
    created.managed = Some(Managed::Created);
    account.fields = map(vec![("createdAt", created)]);
    let mut item = entity("Item", "item");
    let mut code = field("code", Some(Primitive::String), None);
    code.unique = true;
    code.nullable = true;
    item.fields = map(vec![("code", code)]);
    let s = schema(vec![("User", account), ("Item", item)], vec![]);
    let m = generate(&s, "").unwrap();
    assert!(m.contains("'code' => new Column('code', 'VARCHAR(255)', true, false, null),"));
    assert!(m.contains("'item_code_uniq' => new Index('item_code_uniq', ['code'], true),"));
    assert!(m.contains("'User' => new AccountFields(\n            'User',\n            'createdAt',\n            null,\n        ),"));
    assert!(!m.contains("'User' => new TableSchema"));
}
