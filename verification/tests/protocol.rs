use eleph_gen_wordpress::ir::{
    Cardinality, EdgeDefinition, EdgeInverse, EntityDefinition, FieldDefinition, IrMap, OnDelete,
    Origin, Primitive, ProjectDefinition, Schema, StorageDefinition, TerminalRule, TypeReference,
};
use eleph_gen_wordpress::json::Json;
use eleph_gen_wordpress::protocol::{describe_response, respond_checked, route, Headers, Request};
use eleph_gen_wordpress::render::render;

fn map<T>(entries: Vec<(&str, T)>) -> IrMap<T> {
    IrMap {
        entries: entries
            .into_iter()
            .map(|(k, v)| (k.to_string(), v))
            .collect(),
    }
}

fn object(entries: Vec<(&str, Json)>) -> Json {
    Json::Object(
        entries
            .into_iter()
            .map(|(k, v)| (k.to_string(), v))
            .collect(),
    )
}

fn text(s: &str) -> Json {
    Json::Str(s.to_string())
}

fn entity(name: &str, table: &str, handle: Option<&str>) -> EntityDefinition {
    EntityDefinition {
        name: name.to_string(),
        storage: StorageDefinition {
            driver: "wordpress".to_string(),
            table: table.to_string(),
            handle: handle.map(str::to_string),
        },
        source_file: format!("{table}.yml"),
        description: None,
        uses: vec![],
        fields: map(vec![]),
        edges: map(vec![]),
        queries: map(vec![]),
        actions: map(vec![]),
        triggers: map(vec![]),
        config: map(vec![]),
        integrations: map(vec![]),
        applied_patterns: vec![],
        read_policies: map(vec![]),
        write_policies: map(vec![]),
        terminal_read: TerminalRule::Deny,
        terminal_write: TerminalRule::Deny,
    }
}

fn field(name: &str, primitive: Primitive) -> FieldDefinition {
    FieldDefinition {
        name: name.to_string(),
        ty: TypeReference {
            primitive: Some(primitive),
            declared_type: None,
        },
        origin: Origin {
            pattern: None,
            file: "item.yml".to_string(),
        },
        description: None,
        required: false,
        nullable: false,
        default_value: Json::Null,
        has_default: false,
        unique: false,
        indexed: false,
        immutable: false,
        managed: None,
        max_length: None,
        enum_source: None,
        verify: false,
    }
}

fn wordpress(settings: Vec<(&str, Json)>) -> IrMap<IrMap<Json>> {
    map(vec![(
        "wordpress",
        IrMap {
            entries: settings
                .into_iter()
                .map(|(k, v)| (k.to_string(), v))
                .collect(),
        },
    )])
}

fn settings_schema() -> Schema {
    let item = entity("Item", "item", Some("item"));
    let mut owner = entity("Owner", "owner", Some("owner"));
    owner.config = map(vec![("account", Json::Bool(true))]);
    Schema {
        project: ProjectDefinition {
            name: "Demo".to_string(),
            driver: "wordpress".to_string(),
            source_file: "project.yml".to_string(),
            integrations: map(vec![]),
            table_prefix: String::new(),
            description: None,
        },
        entities: map(vec![("Item", item), ("Owner", owner)]),
        types: map(vec![]),
        patterns: map(vec![]),
    }
}

fn headers() -> Headers {
    Headers {
        storage: String::new(),
        post_types: String::new(),
        taxonomies: String::new(),
    }
}

fn generated(schema: &Schema) -> Json {
    respond_checked(schema, &headers()).expect("the files can be written")
}

fn member<'a>(v: &'a Json, key: &str) -> &'a Json {
    match v {
        Json::Object(m) => &m.iter().find(|(k, _)| k == key).expect("member").1,
        _ => panic!("not an object"),
    }
}

fn items(v: &Json) -> &Vec<Json> {
    match v {
        Json::Array(a) => a,
        _ => panic!("not an array"),
    }
}

fn string(v: &Json) -> &str {
    match v {
        Json::Str(s) => s.as_str(),
        _ => panic!("not a string"),
    }
}

fn body(response: &Json, path: &str) -> String {
    items(member(response, "files"))
        .iter()
        .find(|f| string(member(f, "path")) == path)
        .map(|f| string(member(f, "body")).to_string())
        .expect("file")
}

fn errors(response: &Json) -> Vec<String> {
    items(member(response, "errors"))
        .iter()
        .map(|e| string(e).to_string())
        .collect()
}

#[test]
fn admin_defaults_on_and_posts_default_off() {
    let result = generated(&settings_schema());
    assert!(errors(&result).is_empty());
    assert!(body(&result, "admin-pages.php").contains("'Item'"));
    assert!(!body(&result, "admin-pages.php").contains("'Owner'"));
    assert!(body(&result, "admin/Item/list.php").contains("$view->listing"));
    assert!(body(&result, "admin/Item/detail.php").contains("$view->detail"));
    assert!(!body(&result, "storage-manifest.php").contains("wp_post_id"));
    assert!(!body(&result, "post-types.php").contains("'item'"));
}

#[test]
fn posts_and_templates_are_independent_and_entity_settings_override_project() {
    let mut schema = settings_schema();
    schema.project.integrations = wordpress(vec![
        ("linkPosts", Json::Bool(true)),
        ("adminTemplates", Json::Bool(false)),
    ]);
    let result = generated(&schema);
    assert!(body(&result, "storage-manifest.php").contains("'wp_post_id' => new Column"));
    assert!(body(&result, "storage-manifest.php").contains("'Item' => 'item'"));
    assert!(body(&result, "post-types.php").contains("'show_ui' => true"));
    assert_eq!(body(&result, "admin-pages.php"), "return [];\n");
    schema.entities.entries[0].1.integrations = wordpress(vec![
        ("adminTemplates", Json::Bool(true)),
        ("linkPosts", Json::Null),
    ]);
    let result = generated(&schema);
    assert!(body(&result, "post-types.php").contains("'show_ui' => false"));
    assert!(body(&result, "post-types.php").contains("'show_in_menu' => false"));
    schema.entities.entries[0].1.integrations = wordpress(vec![
        ("adminTemplates", Json::Bool(true)),
        ("linkPosts", Json::Bool(false)),
    ]);
    let result = generated(&schema);
    assert!(!body(&result, "storage-manifest.php").contains("wp_post_id"));
    assert!(!body(&result, "post-types.php").contains("'item'"));
    assert!(body(&result, "admin-pages.php").contains("'Item'"));
}

#[test]
fn linking_rejects_collision_with_an_entity_field() {
    let mut schema = settings_schema();
    schema.project.integrations = wordpress(vec![("linkPosts", Json::Bool(true))]);
    schema.entities.entries[0].1.fields = map(vec![("wpPostId", field("wpPostId", Primitive::Id))]);
    let result = generated(&schema);
    assert!(items(member(&result, "files")).is_empty());
    assert!(errors(&result)[0].contains("wp_post_id"));
}

#[test]
fn explicitly_linked_entities_require_a_post_type_handle() {
    let mut schema = settings_schema();
    schema.entities.entries[0].1.storage.handle = None;
    schema.entities.entries[0].1.integrations = wordpress(vec![("linkPosts", Json::Bool(true))]);
    let result = generated(&schema);
    assert!(items(member(&result, "files")).is_empty());
    assert!(errors(&result)[0].contains("storage.handle"));
}

#[test]
fn route_refuses_unsupported_versions() {
    let wrong_ir = object(vec![
        ("elephentity", Json::Number("1".to_string())),
        ("irVersion", text("99")),
        ("request", text("describe")),
    ]);
    assert_eq!(
        route(&wrong_ir).err().unwrap(),
        "IR version mismatch: this builder speaks 1.1."
    );
    let wrong_protocol = object(vec![
        ("elephentity", Json::Number("2".to_string())),
        ("irVersion", text("1.1")),
        ("request", text("describe")),
    ]);
    assert_eq!(
        route(&wrong_protocol).err().unwrap(),
        "Protocol version mismatch: this builder speaks 1."
    );
    let float_protocol = object(vec![
        ("elephentity", Json::Number("1.0".to_string())),
        ("irVersion", text("1.1")),
    ]);
    assert!(route(&float_protocol).is_err());
}

#[test]
fn route_answers_describe_and_generate() {
    let describe = object(vec![
        ("elephentity", Json::Number("1".to_string())),
        ("irVersion", text("1.1")),
        ("request", text("describe")),
    ]);
    assert!(matches!(route(&describe), Ok(Request::Describe)));
    let generate = object(vec![
        ("elephentity", Json::Number("1".to_string())),
        ("irVersion", text("1.1")),
        ("target", text("test")),
        ("outputDirectory", text("out")),
        ("schema", object(vec![("project", object(vec![]))])),
    ]);
    assert!(matches!(route(&generate), Ok(Request::Generate)));
    let unknown = object(vec![
        ("elephentity", Json::Number("1".to_string())),
        ("irVersion", text("1.1")),
        ("request", text("compile")),
    ]);
    assert_eq!(
        route(&unknown).err().unwrap(),
        "Unknown request \"compile\". This builder answers \"generate\" and \"describe\"."
    );
    let odd = object(vec![
        ("elephentity", Json::Number("1".to_string())),
        ("irVersion", text("1.1")),
        ("request", Json::Bool(true)),
    ]);
    assert_eq!(
        route(&odd).err().unwrap(),
        "Unknown request. This builder answers \"generate\" and \"describe\"."
    );
    let no_schema = object(vec![
        ("elephentity", Json::Number("1".to_string())),
        ("irVersion", text("1.1")),
    ]);
    assert_eq!(route(&no_schema).err().unwrap(), "The request carries no schema.");
    let no_project = object(vec![
        ("elephentity", Json::Number("1".to_string())),
        ("irVersion", text("1.1")),
        ("schema", object(vec![])),
    ]);
    assert_eq!(
        route(&no_project).err().unwrap(),
        "The schema is not readable: missing project."
    );
}

#[test]
fn another_driver_gets_an_error_and_no_files() {
    let mut schema = settings_schema();
    schema.project.driver = "laravel".to_string();
    let result = generated(&schema);
    assert!(items(member(&result, "files")).is_empty());
    assert_eq!(
        errors(&result),
        vec!["This project declares driver \"laravel\", so the wordpress target has nothing to generate. Remove it from eleph.json, or change the driver in project.yml.".to_string()]
    );
    assert_eq!(string(member(&result, "irVersion")), "1.1");
    assert_eq!(string(member(&result, "headerStyle")), "php");
}

#[test]
fn accepted_generation_lists_the_files_in_order() {
    let result = generated(&settings_schema());
    let paths: Vec<String> = items(member(&result, "files"))
        .iter()
        .map(|f| string(member(f, "path")).to_string())
        .collect();
    assert_eq!(
        paths,
        vec![
            "storage-manifest.php",
            "post-types.php",
            "taxonomies.php",
            "admin-pages.php",
            "admin/Item/list.php",
            "admin/Item/detail.php",
        ]
    );
    assert_eq!(body(&result, "taxonomies.php"), "return [];\n");
}

#[test]
fn edges_are_placed_and_taxonomies_collect_object_types() {
    let mut schema = settings_schema();
    schema.project.integrations = wordpress(vec![("linkPosts", Json::Bool(true))]);
    let mut tag = entity("Tag", "tag", Some("post_tag"));
    tag.config = map(vec![("taxonomy", Json::Bool(true))]);
    schema.entities.entries.push(("Tag".to_string(), tag));
    schema.entities.entries[0].1.edges = map(vec![
        (
            "tags",
            EdgeDefinition {
                name: "tags".to_string(),
                to: "Tag".to_string(),
                cardinality: Cardinality::Many,
                origin: Origin {
                    pattern: None,
                    file: "item.yml".to_string(),
                },
                description: None,
                inverse: None,
                on_delete: OnDelete::Restrict,
                required: false,
            },
        ),
        (
            "owner",
            EdgeDefinition {
                name: "owner".to_string(),
                to: "Owner".to_string(),
                cardinality: Cardinality::One,
                origin: Origin {
                    pattern: None,
                    file: "item.yml".to_string(),
                },
                description: None,
                inverse: Some(EdgeInverse {
                    derived: true,
                    name: None,
                    unique: false,
                }),
                on_delete: OnDelete::Restrict,
                required: false,
            },
        ),
    ]);
    let result = generated(&schema);
    let manifest = body(&result, "storage-manifest.php");
    assert!(manifest.contains("'Item.tags' => new TaxonomyPlacement("));
    assert!(manifest.contains("'Item.owner' => new EdgePlacement("));
    assert!(manifest.contains("RelationKind::ManyToOne"));
    assert!(manifest.contains("'owner_id' => new Column('owner_id', 'BIGINT UNSIGNED', true, false, null),"));
    assert!(manifest.contains("new Index('item_owner_id_idx', ['owner_id'], false)"));
    assert!(manifest.contains("'Tag' => 'post_tag'"));
    let taxonomies = body(&result, "taxonomies.php");
    assert!(taxonomies.contains("'post_tag' => ["));
    assert!(taxonomies.contains("'object_type' => [\n            0 => 'item',\n        ],"));
    assert!(taxonomies.contains("'name' => 'Tags',"));
}

#[test]
fn describe_answers_with_the_declarations() {
    let provides = object(vec![("drivers", Json::Array(vec![text("wordpress")]))]);
    let r = describe_response(provides);
    assert_eq!(
        render(&r, 0),
        "[\n    'elephentity' => 1,\n    'irVersion' => '1.1',\n    'provides' => [\n        'drivers' => [\n            0 => 'wordpress',\n        ],\n    ],\n]"
    );
}

#[test]
fn an_empty_map_has_no_entries() {
    let m: IrMap<Json> = IrMap::new();
    assert!(m.entries.is_empty());
}
