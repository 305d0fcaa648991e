//! Registration arguments for the linked entities' post types and for the
//! taxonomies, keyed by handle, as a PHP array.
use vstd::prelude::*;
use crate::assoc::{entries_view, msorted_put, sorted_put_entry, lemma_msorted_put_values};
use crate::ir::{EdgeDefinition, EntityDefinition, Schema};
use crate::json::{Json, JsonModel, copy, items_model, lemma_entries_view_model, push_item, push_member, str_of, string, truthy};
use crate::render::{lemma_array_nesting, lemma_object_nesting, nesting, render, render_model};
use crate::rules::{
    admin_enabled, config, config_or_null, config_value, is_admin_enabled, is_linked,
    is_taxonomy, linked, taxonomy,
};
use crate::storage::handle_text;
use crate::text::{
    append_str, humanise, humanise_spec, lowercase_str, owned, plural, plural_spec, str_eq,
    str_to_lowercase,
};

verus! {

/// The entity's `config` member `k`, or `default`.
pub open spec fn configured_spec(e: EntityDefinition, k: Seq<char>, default: Json) -> Json {
    match config(e, k) {
        Some(v) => v,
        None => default,
    }
}

pub fn configured<'a>(e: &'a EntityDefinition, k: &str, default: &'a Json) -> (r: &'a Json)
    ensures
        *r == configured_spec(*e, k@, *default),
{
    match config_value(e, k) {
        Some(v) => v,
        None => default,
    }
}

/// A boolean setting of the entity's `config`: the member when present
/// (anything but `true` counting as off), else `default`.
pub open spec fn config_flag(e: EntityDefinition, k: Seq<char>, default: bool) -> bool {
    match config(e, k) {
        Some(v) => truthy(v),
        None => default,
    }
}

fn flag(e: &EntityDefinition, k: &str, default: bool) -> (r: bool)
    ensures
        r == config_flag(*e, k@, default),
{
    let fallback = Json::Bool(default);
    crate::json::b(configured(e, k, &fallback))
}

/// The singular label: `config.label`, else the name as words.
pub open spec fn singular_label(e: EntityDefinition) -> Seq<char> {
    match str_of(config_or_null(e, "label"@)) {
        Some(l) => l,
        None => humanise_spec(e.name@),
    }
}

/// The plural label: `config.pluralLabel`, else the plural of the singular.
pub open spec fn plural_label(e: EntityDefinition) -> Seq<char> {
    match str_of(config_or_null(e, "pluralLabel"@)) {
        Some(p) => p,
        None => plural_spec(singular_label(e)),
    }
}

pub fn singular_of(e: &EntityDefinition) -> (r: String)
    ensures
        r@ == singular_label(*e),
{
    match config_value(e, "label") {
        Some(v) => match v.as_str() {
            Some(l) => owned(l),
            None => humanise(e.name.as_str()),
        },
        None => humanise(e.name.as_str()),
    }
}

pub fn plural_of(e: &EntityDefinition, singular: &str) -> (r: String)
    requires
        singular@ == singular_label(*e),
    ensures
        r@ == plural_label(*e),
{
    match config_value(e, "pluralLabel") {
        Some(v) => match v.as_str() {
            Some(p) => owned(p),
            None => plural(singular),
        },
        None => plural(singular),
    }
}

pub open spec fn description_text(e: EntityDefinition) -> Seq<char> {
    match e.description {
        Some(d) => d@,
        None => Seq::empty(),
    }
}

/// The strings among the first `n` items, in order.
pub open spec fn strings_in(a: Seq<Json>, n: nat) -> Seq<JsonModel>
    decreases n,
{
    if n == 0 {
        Seq::empty()
    } else {
        let r = strings_in(a, (n - 1) as nat);
        match a[n - 1] {
            Json::Str(s) => r.push(JsonModel::Str(s@)),
            _ => r,
        }
    }
}

/// The post type's `supports`: the strings of `config.supports`.
pub open spec fn supports_spec(e: EntityDefinition) -> Seq<JsonModel> {
    match config_or_null(e, "supports"@) {
        Json::Array(a) => strings_in(a@, a@.len()),
        _ => Seq::empty(),
    }
}

/// The handle once for each of the first `n` edges that point at `name`.
pub open spec fn edge_targets(
    edges: Seq<(String, EdgeDefinition)>,
    name: Seq<char>,
    handle: Seq<char>,
    n: nat,
) -> Seq<JsonModel>
    decreases n,
{
    if n == 0 {
        Seq::empty()
    } else {
        let r = edge_targets(edges, name, handle, (n - 1) as nat);
        if edges[n - 1].1.to@ == name {
            r.push(JsonModel::Str(handle))
        } else {
            r
        }
    }
}

/// A taxonomy's object types: for each of the first `n` entities that is
/// linked to a post type, its handle once per edge that points at the
/// taxonomy `name`.
pub open spec fn object_types(schema: Schema, name: Seq<char>, n: nat) -> Seq<JsonModel>
    decreases n,
{
    if n == 0 {
        Seq::empty()
    } else {
        let r = object_types(schema, name, (n - 1) as nat);
        let src = schema.entities.entries@[n - 1].1;
        if is_linked(schema, src) {
            r + edge_targets(src.edges.entries@, name, handle_text(src), src.edges.entries@.len())
        } else {
            r
        }
    }
}

pub open spec fn str_member(k: Seq<char>, v: Seq<char>) -> (Seq<char>, JsonModel) {
    (k, JsonModel::Str(v))
}

pub open spec fn bool_member(k: Seq<char>, v: bool) -> (Seq<char>, JsonModel) {
    (k, JsonModel::Bool(v))
}

pub open spec fn taxonomy_labels(plural: Seq<char>, singular: Seq<char>) -> JsonModel {
    JsonModel::Object(
        seq![
            str_member("name"@, plural),
            str_member("singular_name"@, singular),
            str_member("search_items"@, "Search "@ + plural),
            str_member("all_items"@, "All "@ + plural),
            str_member("edit_item"@, "Edit "@ + singular),
            str_member("add_new_item"@, "Add New "@ + singular),
            str_member("new_item_name"@, "New "@ + singular + " Name"@),
        ],
    )
}

/// The arguments that register a taxonomy.
pub open spec fn taxonomy_args(schema: Schema, e: EntityDefinition) -> JsonModel {
    let public = config_flag(e, "public"@, true);
    let admin = config_flag(e, "showInAdmin"@, true);
    JsonModel::Object(
        seq![
            ("labels"@, taxonomy_labels(plural_label(e), singular_label(e))),
            str_member("description"@, description_text(e)),
            bool_member("public"@, public),
            bool_member("publicly_queryable"@, public),
            bool_member("hierarchical"@, config_flag(e, "hierarchical"@, false)),
            bool_member("show_ui"@, admin),
            bool_member("show_admin_column"@, admin),
            bool_member("show_in_rest"@, config_flag(e, "showInRest"@, false)),
            (
                "object_type"@,
                JsonModel::Array(
                    object_types(schema, e.name@, schema.entities.entries@.len()),
                ),
            ),
        ],
    )
}

pub open spec fn post_labels(plural: Seq<char>, singular: Seq<char>, lower: Seq<char>) -> JsonModel {
    JsonModel::Object(
        seq![
            str_member("name"@, plural),
            str_member("singular_name"@, singular),
            str_member("add_new_item"@, "Add New "@ + singular),
            str_member("edit_item"@, "Edit "@ + singular),
            str_member("new_item"@, "New "@ + singular),
            str_member("view_item"@, "View "@ + singular),
            str_member("search_items"@, "Search "@ + plural),
            str_member("not_found"@, "No "@ + lower + " found"@),
            str_member("not_found_in_trash"@, "No "@ + lower + " found in Trash"@),
        ],
    )
}

/// The post type shows its own admin UI: `config.showInAdmin` is not off
/// and the entity does not get admin templates instead.
pub open spec fn post_admin(schema: Schema, e: EntityDefinition) -> bool {
    config_flag(e, "showInAdmin"@, true) && !is_admin_enabled(schema, e)
}

/// The arguments that register a post type.
pub open spec fn post_args(schema: Schema, e: EntityDefinition) -> JsonModel {
    let admin = post_admin(schema, e);
    let public = str_of(config_or_null(e, "visibility"@)) == Some("public"@);
    let plural = plural_label(e);
    JsonModel::Object(
        seq![
            ("labels"@, post_labels(plural, singular_label(e), lowercase_str(plural))),
            str_member("description"@, description_text(e)),
            bool_member("public"@, public),
            bool_member("publicly_queryable"@, public),
            bool_member("exclude_from_search"@, !public),
            bool_member("show_ui"@, admin),
            (
                "show_in_menu"@,
                if admin {
                    match str_of(config_or_null(e, "adminMenu"@)) {
                        Some(m) => JsonModel::Str(m),
                        None => JsonModel::Bool(true),
                    }
                } else {
                    JsonModel::Bool(false)
                },
            ),
            bool_member("show_in_rest"@, config_flag(e, "showInRest"@, false)),
            (
                "capability_type"@,
                match config(e, "capabilityType"@) {
                    Some(v) => v@,
                    None => JsonModel::Str("post"@),
                },
            ),
            ("supports"@, JsonModel::Array(supports_spec(e))),
        ],
    )
}

/// Whether the entity is registered: as a taxonomy, or as a linked post type.
pub open spec fn registered(schema: Schema, e: EntityDefinition, tax: bool) -> bool {
    if tax {
        is_taxonomy(e)
    } else {
        is_linked(schema, e)
    }
}

/// The registrations of the first `n` entities, keyed by handle in order.
pub open spec fn registrations(schema: Schema, tax: bool, n: nat) -> Seq<(Seq<char>, JsonModel)>
    decreases n,
{
    if n == 0 {
        Seq::empty()
    } else {
        let acc = registrations(schema, tax, (n - 1) as nat);
        let e = schema.entities.entries@[n - 1].1;
        if registered(schema, e, tax) {
            msorted_put(
                acc,
                handle_text(e),
                if tax {
                    taxonomy_args(schema, e)
                } else {
                    post_args(schema, e)
                },
            )
        } else {
            acc
        }
    }
}

/// `header`, then `return` with the registrations as a PHP array.
#[verifier::opaque]
pub open spec fn registration_spec(schema: Schema, tax: bool, header: Seq<char>) -> Seq<char> {
    header + "return "@ + render_model(
        JsonModel::Object(registrations(schema, tax, schema.entities.entries@.len())),
        0,
    ) + ";\n"@
}

/// The entity's `config.capabilityType` nests shallowly enough to be written
/// inside the registrations.
pub open spec fn capability_fits(e: EntityDefinition) -> bool {
    match config(e, "capabilityType"@) {
        Some(v) => nesting(v@) + 3 < usize::MAX,
        None => true,
    }
}

pub open spec fn capabilities_fit(schema: Schema) -> bool {
    forall|i: int|
        0 <= i < schema.entities.entries@.len() ==> capability_fits(
            #[trigger] schema.entities.entries@[i].1,
        )
}

proof fn lemma_strings_in(a: Seq<Json>, n: nat)
    ensures
        forall|i: int|
            0 <= i < strings_in(a, n).len() ==> nesting(#[trigger] strings_in(a, n)[i]) == 0,
    decreases n,
{
    if n > 0 {
        lemma_strings_in(a, (n - 1) as nat);
        let r = strings_in(a, (n - 1) as nat);
        match a[n - 1] {
            Json::Str(s) => {
                assert forall|i: int| 0 <= i < r.len() + 1 implies nesting(
                    #[trigger] r.push(JsonModel::Str(s@))[i],
                ) == 0 by {
                    if i < r.len() {
                        assert(r.push(JsonModel::Str(s@))[i] == r[i]);
                    }
                }
            },
            _ => {},
        }
    }
}

proof fn lemma_edge_targets(
    edges: Seq<(String, EdgeDefinition)>,
    name: Seq<char>,
    handle: Seq<char>,
    n: nat,
)
    ensures
        forall|i: int|
            0 <= i < edge_targets(edges, name, handle, n).len() ==> nesting(
                #[trigger] edge_targets(edges, name, handle, n)[i],
            ) == 0,
    decreases n,
{
    if n > 0 {
        lemma_edge_targets(edges, name, handle, (n - 1) as nat);
        let r = edge_targets(edges, name, handle, (n - 1) as nat);
        assert forall|i: int| 0 <= i < r.len() + 1 implies nesting(
            #[trigger] r.push(JsonModel::Str(handle))[i],
        ) == 0 by {
            if i < r.len() {
                assert(r.push(JsonModel::Str(handle))[i] == r[i]);
            }
        }
    }
}

proof fn lemma_object_types(schema: Schema, name: Seq<char>, n: nat)
    ensures
        forall|i: int|
            0 <= i < object_types(schema, name, n).len() ==> nesting(
                #[trigger] object_types(schema, name, n)[i],
            ) == 0,
    decreases n,
{
    if n > 0 {
        lemma_object_types(schema, name, (n - 1) as nat);
        let r = object_types(schema, name, (n - 1) as nat);
        let src = schema.entities.entries@[n - 1].1;
        let t = edge_targets(src.edges.entries@, name, handle_text(src), src.edges.entries@.len());
        lemma_edge_targets(src.edges.entries@, name, handle_text(src), src.edges.entries@.len());
        if is_linked(schema, src) {
            assert forall|i: int|
                0 <= i < (r + t).len() implies nesting(#[trigger] (r + t)[i]) == 0 by {
                if i >= r.len() {
                    assert((r + t)[i] == t[i - r.len()]);
                }
            }
        }
    }
}

proof fn lemma_args_nesting(schema: Schema, e: EntityDefinition, tax: bool)
    requires
        capability_fits(e),
    ensures
        nesting(
            if tax {
                taxonomy_args(schema, e)
            } else {
                post_args(schema, e)
            },
        ) + 3 <= usize::MAX,
{
    let b: nat = (usize::MAX - 4) as nat;
    if tax {
        let labels = taxonomy_labels(plural_label(e), singular_label(e));
        lemma_object_nesting(labels->Object_0, 0);
        let types = object_types(schema, e.name@, schema.entities.entries@.len());
        lemma_object_types(schema, e.name@, schema.entities.entries@.len());
        lemma_array_nesting(types, 0);
        let m = taxonomy_args(schema, e)->Object_0;
        assert forall|i: int| 0 <= i < m.len() implies nesting(#[trigger] m[i].1) <= b by {}
        lemma_object_nesting(m, b);
    } else {
        let plural = plural_label(e);
        let labels = post_labels(plural, singular_label(e), lowercase_str(plural));
        lemma_object_nesting(labels->Object_0, 0);
        let sup = supports_spec(e);
        match config_or_null(e, "supports"@) {
            Json::Array(a) => lemma_strings_in(a@, a@.len()),
            _ => {},
        }
        lemma_array_nesting(sup, 0);
        let m = post_args(schema, e)->Object_0;
        assert forall|i: int| 0 <= i < m.len() implies nesting(#[trigger] m[i].1) <= b by {}
        lemma_object_nesting(m, b);
    }
}

fn prefixed(prefix: &str, s: &str) -> (r: Json)
    ensures
        r@ == JsonModel::Str(prefix@ + s@),
{
    let mut t = owned(prefix);
    append_str(&mut t, s);
    Json::Str(t)
}

fn surrounded(prefix: &str, s: &str, suffix: &str) -> (r: Json)
    ensures
        r@ == JsonModel::Str(prefix@ + s@ + suffix@),
{
    let mut t = owned(prefix);
    append_str(&mut t, s);
    append_str(&mut t, suffix);
    Json::Str(t)
}

fn taxonomy_labels_of(plural: &str, singular: &str) -> (r: Json)
    ensures
        r@ == taxonomy_labels(plural@, singular@),
{
    let mut m: Vec<(String, Json)> = Vec::new();
    push_member(&mut m, "name", string(plural));
    push_member(&mut m, "singular_name", string(singular));
    push_member(&mut m, "search_items", prefixed("Search ", plural));
    push_member(&mut m, "all_items", prefixed("All ", plural));
    push_member(&mut m, "edit_item", prefixed("Edit ", singular));
    push_member(&mut m, "add_new_item", prefixed("Add New ", singular));
    push_member(&mut m, "new_item_name", surrounded("New ", singular, " Name"));
    let r = Json::Object(m);
    assert(r@->Object_0 =~= taxonomy_labels(plural@, singular@)->Object_0);
    r
}

fn post_labels_of(plural: &str, singular: &str, lower: &str) -> (r: Json)
    ensures
        r@ == post_labels(plural@, singular@, lower@),
{
    let mut m: Vec<(String, Json)> = Vec::new();
    push_member(&mut m, "name", string(plural));
    push_member(&mut m, "singular_name", string(singular));
    push_member(&mut m, "add_new_item", prefixed("Add New ", singular));
    push_member(&mut m, "edit_item", prefixed("Edit ", singular));
    push_member(&mut m, "new_item", prefixed("New ", singular));
    push_member(&mut m, "view_item", prefixed("View ", singular));
    push_member(&mut m, "search_items", prefixed("Search ", plural));
    push_member(&mut m, "not_found", surrounded("No ", lower, " found"));
    push_member(&mut m, "not_found_in_trash", surrounded("No ", lower, " found in Trash"));
    let r = Json::Object(m);
    assert(r@->Object_0 =~= post_labels(plural@, singular@, lower@)->Object_0);
    r
}

fn description_of(e: &EntityDefinition) -> (r: Json)
    ensures
        r@ == JsonModel::Str(description_text(*e)),
{
    match &e.description {
        Some(d) => string(d.as_str()),
        None => Json::Str(String::new()),
    }
}

fn object_types_of(schema: &Schema, name: &str) -> (r: Json)
    ensures
        r@ == JsonModel::Array(object_types(*schema, name@, schema.entities.entries@.len())),
{
    let ents = &schema.entities.entries;
    let n = ents.len();
    let mut items: Vec<Json> = Vec::new();
    let mut i: usize = 0;
    while i < n
        invariant
            i <= n == ents@.len(),
            ents == schema.entities.entries,
            items_model(items@) == object_types(*schema, name@, i as nat),
        decreases n - i,
    {
        let src = &ents[i].1;
        if linked(schema, src) {
            let ghost before = items_model(items@);
            let h: &str = match &src.storage.handle {
                Some(h) => h.as_str(),
                None => {
                    proof {
                        reveal_strlit("");
                    }
                    ""
                },
            };
            assert(h@ == handle_text(*src));
            let es = &src.edges.entries;
            let k = es.len();
            let mut j: usize = 0;
            while j < k
                invariant
                    j <= k == es@.len(),
                    es == src.edges.entries,
                    h@ == handle_text(*src),
                    items_model(items@) == before + edge_targets(es@, name@, h@, j as nat),
                decreases k - j,
            {
                if str_eq(es[j].1.to.as_str(), name) {
                    push_item(&mut items, string(h));
                }
                j = j + 1;
                assert(items_model(items@) =~= before + edge_targets(es@, name@, h@, j as nat));
            }
        }
        i = i + 1;
    }
    Json::Array(items)
}

fn supports_of(e: &EntityDefinition) -> (r: Json)
    ensures
        r@ == JsonModel::Array(supports_spec(*e)),
{
    let mut items: Vec<Json> = Vec::new();
    match config_value(e, "supports") {
        Some(Json::Array(a)) => {
            let n = a.len();
            let mut i: usize = 0;
            while i < n
                invariant
                    i <= n == a@.len(),
                    items_model(items@) == strings_in(a@, i as nat),
                decreases n - i,
            {
                match &a[i] {
                    Json::Str(x) => push_item(&mut items, string(x.as_str())),
                    _ => {},
                }
                i = i + 1;
            }
        },
        _ => {},
    }
    Json::Array(items)
}

fn taxonomy_args_of(schema: &Schema, e: &EntityDefinition) -> (r: Json)
    ensures
        r@ == taxonomy_args(*schema, *e),
{
    let singular = singular_of(e);
    let plural = plural_of(e, singular.as_str());
    let public = flag(e, "public", true);
    let admin = flag(e, "showInAdmin", true);
    let mut m: Vec<(String, Json)> = Vec::new();
    push_member(&mut m, "labels", taxonomy_labels_of(plural.as_str(), singular.as_str()));
    push_member(&mut m, "description", description_of(e));
    push_member(&mut m, "public", Json::Bool(public));
    push_member(&mut m, "publicly_queryable", Json::Bool(public));
    push_member(&mut m, "hierarchical", Json::Bool(flag(e, "hierarchical", false)));
    push_member(&mut m, "show_ui", Json::Bool(admin));
    push_member(&mut m, "show_admin_column", Json::Bool(admin));
    push_member(&mut m, "show_in_rest", Json::Bool(flag(e, "showInRest", false)));
    push_member(&mut m, "object_type", object_types_of(schema, e.name.as_str()));
    let r = Json::Object(m);
    assert(r@->Object_0 =~= taxonomy_args(*schema, *e)->Object_0);
    r
}

fn post_args_of(schema: &Schema, e: &EntityDefinition) -> (r: Json)
    ensures
        r@ == post_args(*schema, *e),
{
    let singular = singular_of(e);
    let plural = plural_of(e, singular.as_str());
    let lower = str_to_lowercase(plural.as_str());
    let admin = flag(e, "showInAdmin", true) && !admin_enabled(schema, e);
    let public = match config_value(e, "visibility") {
        Some(v) => match v.as_str() {
            Some(x) => str_eq(x, "public"),
            None => false,
        },
        None => false,
    };
    let null = Json::Null;
    let menu = if admin {
        match configured(e, "adminMenu", &null).as_str() {
            Some(x) => string(x),
            None => Json::Bool(admin),
        }
    } else {
        Json::Bool(false)
    };
    let post = string("post");
    let capability = copy(configured(e, "capabilityType", &post));
    let mut m: Vec<(String, Json)> = Vec::new();
    push_member(&mut m, "labels", post_labels_of(plural.as_str(), singular.as_str(), lower.as_str()));
    push_member(&mut m, "description", description_of(e));
    push_member(&mut m, "public", Json::Bool(public));
    push_member(&mut m, "publicly_queryable", Json::Bool(public));
    push_member(&mut m, "exclude_from_search", Json::Bool(!public));
    push_member(&mut m, "show_ui", Json::Bool(admin));
    push_member(&mut m, "show_in_menu", menu);
    push_member(&mut m, "show_in_rest", Json::Bool(flag(e, "showInRest", false)));
    push_member(&mut m, "capability_type", capability);
    push_member(&mut m, "supports", supports_of(e));
    let r = Json::Object(m);
    assert(r@->Object_0 =~= post_args(*schema, *e)->Object_0);
    r
}

/// The post type (`tax == false`) or taxonomy (`tax == true`) registrations:
/// `header`, then `return` with an array from handle to registration
/// arguments, in handle order.
pub fn generate(schema: &Schema, tax: bool, header: &str) -> (r: String)
    requires
        capabilities_fit(*schema),
    ensures
        r@ == registration_spec(*schema, tax, header@),
{
    reveal(registration_spec);
    let ents = &schema.entities.entries;
    let n = ents.len();
    let mut result: Vec<(String, Json)> = Vec::new();
    let ghost b: nat = (usize::MAX - 3) as nat;
    let mut i: usize = 0;
    while i < n
        invariant
            i <= n == ents@.len(),
            ents == schema.entities.entries,
            capabilities_fit(*schema),
            b == (usize::MAX - 3) as nat,
            entries_view(result@) == registrations(*schema, tax, i as nat),
            forall|j: int|
                0 <= j < result@.len() ==> nesting(#[trigger] entries_view(result@)[j].1) <= b,
        decreases n - i,
    {
        let e = &ents[i].1;
        let wanted = if tax {
            taxonomy(e)
        } else {
            linked(schema, e)
        };
        if wanted {
            let handle = match &e.storage.handle {
                Some(h) => owned(h.as_str()),
                None => String::new(),
            };
            let args = if tax {
                taxonomy_args_of(schema, e)
            } else {
                post_args_of(schema, e)
            };
            proof {
                assert(capability_fits(schema.entities.entries@[i as int].1));
                lemma_args_nesting(*schema, *e, tax);
                if tax {
                    assert(args@ == taxonomy_args(*schema, *e));
                    assert(nesting(taxonomy_args(*schema, *e)) + 3 <= usize::MAX);
                } else {
                    assert(args@ == post_args(*schema, *e));
                    assert(nesting(post_args(*schema, *e)) + 3 <= usize::MAX);
                }
                let p = |x: JsonModel| nesting(x) <= b;
                assert(nesting(args@) <= b);
                assert(p(args@));
                lemma_msorted_put_values(entries_view(result@), handle@, args@, p);
            }
            sorted_put_entry(&mut result, handle, args);
        }
        i = i + 1;
    }
    proof {
        lemma_object_nesting(entries_view(result@), b);
        lemma_entries_view_model(result@);
    }
    let value = Json::Object(result);
    let rendered = render(&value, 0);
    let mut out = owned(header);
    append_str(&mut out, "return ");
    append_str(&mut out, rendered.as_str());
    append_str(&mut out, ";\n");
    out
}


/// Law: an entity that gets admin templates registers its post type without
/// WordPress's own admin screens: `show_ui` and `show_in_menu` are `false`.
pub proof fn law_templates_replace_post_screens(schema: Schema, e: EntityDefinition)
    requires
        is_admin_enabled(schema, e),
    ensures
        post_args(schema, e)->Object_0[5] == bool_member("show_ui"@, false),
        post_args(schema, e)->Object_0[6] == ("show_in_menu"@, JsonModel::Bool(false)),
{
}

/// Law: the registrations are keyed by handle in ascending order, each
/// handle once.
pub proof fn law_registrations_sorted(schema: Schema, tax: bool, n: nat)
    ensures
        crate::assoc::sorted_keys(registrations(schema, tax, n)),
    decreases n,
{
    if n > 0 {
        law_registrations_sorted(schema, tax, (n - 1) as nat);
        let e = schema.entities.entries@[n - 1].1;
        if registered(schema, e, tax) {
            crate::assoc::law_sorted_put_keeps_order(
                registrations(schema, tax, (n - 1) as nat),
                handle_text(e),
                if tax {
                    taxonomy_args(schema, e)
                } else {
                    post_args(schema, e)
                },
            );
        }
    }
}


/// The registration arguments of an entity.
pub open spec fn registration_args(schema: Schema, e: EntityDefinition, tax: bool) -> JsonModel {
    if tax {
        taxonomy_args(schema, e)
    } else {
        post_args(schema, e)
    }
}

/// The arguments of the last of the first `n` entities registered under
/// handle `h`, if any is.
pub open spec fn registered_under(schema: Schema, tax: bool, h: Seq<char>, n: nat) -> Option<
    JsonModel,
>
    decreases n,
{
    if n == 0 {
        None
    } else {
        let e = schema.entities.entries@[n - 1].1;
        if registered(schema, e, tax) && handle_text(e) == h {
            Some(registration_args(schema, e, tax))
        } else {
            registered_under(schema, tax, h, (n - 1) as nat)
        }
    }
}

proof fn lemma_registrations_lookup(schema: Schema, tax: bool, h: Seq<char>, n: nat)
    requires
        n <= schema.entities.entries@.len(),
    ensures
        crate::assoc::mlookup(registrations(schema, tax, n), h) == registered_under(
            schema,
            tax,
            h,
            n,
        ),
    decreases n,
{
    if n == 0 {
        assert(crate::assoc::mkey_index(registrations(schema, tax, 0), h) == 0);
    } else {
        lemma_registrations_lookup(schema, tax, h, (n - 1) as nat);
        let e = schema.entities.entries@[n - 1].1;
        if registered(schema, e, tax) {
            crate::assoc::law_sorted_put_lookup(
                registrations(schema, tax, (n - 1) as nat),
                handle_text(e),
                registration_args(schema, e, tax),
                h,
            );
        }
    }
}

/// Law: the registrations file is `header`, `return `, the registrations as
/// a PHP array and `;`. The array's keys ascend, each once; a handle reads
/// the arguments of the last entity registered under it (a taxonomy when
/// `tax`, else a linked post type), and any other key reads nothing.
pub proof fn law_registration_output(schema: Schema, tax: bool, header: Seq<char>, h: Seq<char>)
    ensures
        registration_spec(schema, tax, header) == header + "return "@ + render_model(
            JsonModel::Object(registrations(schema, tax, schema.entities.entries@.len())),
            0,
        ) + ";\n"@,
        crate::assoc::sorted_keys(registrations(schema, tax, schema.entities.entries@.len())),
        crate::assoc::mlookup(registrations(schema, tax, schema.entities.entries@.len()), h)
            == registered_under(schema, tax, h, schema.entities.entries@.len()),
{
    reveal(registration_spec);
    law_registrations_sorted(schema, tax, schema.entities.entries@.len());
    lemma_registrations_lookup(schema, tax, h, schema.entities.entries@.len());
}

/// How many of the first `n` edges point at `name`.
pub open spec fn edges_to(edges: Seq<(String, EdgeDefinition)>, name: Seq<char>, n: nat) -> nat
    decreases n,
{
    if n == 0 {
        0
    } else {
        edges_to(edges, name, (n - 1) as nat) + if edges[n - 1].1.to@ == name {
            1nat
        } else {
            0nat
        }
    }
}

/// How many edges of the first `n` entities that are linked to a post type
/// point at `name`.
pub open spec fn linked_edges_to(schema: Schema, name: Seq<char>, n: nat) -> nat
    decreases n,
{
    if n == 0 {
        0
    } else {
        let src = schema.entities.entries@[n - 1].1;
        linked_edges_to(schema, name, (n - 1) as nat) + if is_linked(schema, src) {
            edges_to(src.edges.entries@, name, src.edges.entries@.len())
        } else {
            0nat
        }
    }
}

proof fn lemma_edge_targets_count(
    edges: Seq<(String, EdgeDefinition)>,
    name: Seq<char>,
    handle: Seq<char>,
    n: nat,
)
    requires
        n <= edges.len(),
    ensures
        edge_targets(edges, name, handle, n).len() == edges_to(edges, name, n),
        forall|k: int|
            0 <= k < edge_targets(edges, name, handle, n).len() ==> #[trigger] edge_targets(
                edges,
                name,
                handle,
                n,
            )[k] == JsonModel::Str(handle),
        edge_targets(edges, name, handle, n).len() > 0 ==> exists|j: int|
            0 <= j < n && (#[trigger] edges[j]).1.to@ == name,
    decreases n,
{
    if n > 0 {
        lemma_edge_targets_count(edges, name, handle, (n - 1) as nat);
        let r = edge_targets(edges, name, handle, (n - 1) as nat);
        if edge_targets(edges, name, handle, n).len() > 0 {
            if r.len() > 0 {
                let j = choose|j: int| 0 <= j < n - 1 && (#[trigger] edges[j]).1.to@ == name;
                assert(0 <= j < n && edges[j].1.to@ == name);
            } else {
                assert(edges[n - 1].1.to@ == name);
            }
        }
    }
}

proof fn lemma_object_types_count(schema: Schema, name: Seq<char>, n: nat)
    requires
        n <= schema.entities.entries@.len(),
    ensures
        object_types(schema, name, n).len() == linked_edges_to(schema, name, n),
        forall|k: int|
            0 <= k < object_types(schema, name, n).len() ==> exists|i: int, j: int|
                0 <= i < n && is_linked(schema, schema.entities.entries@[i].1) && 0 <= j
                    < schema.entities.entries@[i].1.edges.entries@.len() && (#[trigger] schema.entities.entries@[i].1.edges.entries@[j]).1.to@
                    == name && #[trigger] object_types(schema, name, n)[k] == JsonModel::Str(
                    handle_text(schema.entities.entries@[i].1),
                ),
    decreases n,
{
    if n > 0 {
        lemma_object_types_count(schema, name, (n - 1) as nat);
        let r = object_types(schema, name, (n - 1) as nat);
        let src = schema.entities.entries@[n - 1].1;
        let es = src.edges.entries@;
        lemma_edge_targets_count(es, name, handle_text(src), es.len());
        let o = object_types(schema, name, n);
        assert forall|k: int| 0 <= k < o.len() implies exists|i: int, j: int|
            0 <= i < n && is_linked(schema, schema.entities.entries@[i].1) && 0 <= j
                < schema.entities.entries@[i].1.edges.entries@.len() && (#[trigger] schema.entities.entries@[i].1.edges.entries@[j]).1.to@
                == name && #[trigger] o[k] == JsonModel::Str(
                handle_text(schema.entities.entries@[i].1),
            ) by {
            if k < r.len() {
                let (i, j) = choose|i: int, j: int|
                    0 <= i < n - 1 && is_linked(schema, schema.entities.entries@[i].1) && 0 <= j
                        < schema.entities.entries@[i].1.edges.entries@.len() && (#[trigger] schema.entities.entries@[i].1.edges.entries@[j]).1.to@
                        == name && #[trigger] r[k] == JsonModel::Str(
                        handle_text(schema.entities.entries@[i].1),
                    );
                assert(o[k] == r[k]);
                assert(0 <= i < n);
            } else {
                let t = edge_targets(es, name, handle_text(src), es.len());
                assert(o == r + t);
                assert(o[k] == t[k - r.len()]);
                let j = choose|j: int| 0 <= j < es.len() && (#[trigger] es[j]).1.to@ == name;
                assert(schema.entities.entries@[n - 1].1.edges.entries@[j] == es[j]);
                assert(o[k] == JsonModel::Str(handle_text(schema.entities.entries@[n - 1].1)));
            }
        }
    }
}

/// Law: a taxonomy's `object_type` lists, for each entity linked to a post
/// type, its handle once per edge that points at the taxonomy by name, in
/// schema and edge order; each item is such a handle, and there are as many
/// as there are such edges.
pub proof fn law_taxonomy_object_types(schema: Schema, t: EntityDefinition)
    ensures
        taxonomy_args(schema, t)->Object_0[8] == (
            "object_type"@,
            JsonModel::Array(object_types(schema, t.name@, schema.entities.entries@.len())),
        ),
        object_types(schema, t.name@, schema.entities.entries@.len()).len() == linked_edges_to(
            schema,
            t.name@,
            schema.entities.entries@.len(),
        ),
        forall|k: int|
            0 <= k < object_types(schema, t.name@, schema.entities.entries@.len()).len()
                ==> exists|i: int, j: int|
                0 <= i < schema.entities.entries@.len() && is_linked(
                    schema,
                    schema.entities.entries@[i].1,
                ) && 0 <= j < schema.entities.entries@[i].1.edges.entries@.len()
                    && (#[trigger] schema.entities.entries@[i].1.edges.entries@[j]).1.to@ == t.name@
                    && #[trigger] object_types(
                    schema,
                    t.name@,
                    schema.entities.entries@.len(),
                )[k] == JsonModel::Str(handle_text(schema.entities.entries@[i].1)),
{
    let n = schema.entities.entries@.len();
    let o = object_types(schema, t.name@, n);
    lemma_object_types_count(schema, t.name@, n);
    assert forall|k: int| 0 <= k < o.len() implies exists|i: int, j: int|
        0 <= i < n && is_linked(schema, schema.entities.entries@[i].1) && 0 <= j
            < schema.entities.entries@[i].1.edges.entries@.len()
            && (#[trigger] schema.entities.entries@[i].1.edges.entries@[j]).1.to@ == t.name@
            && #[trigger] o[k] == JsonModel::Str(handle_text(schema.entities.entries@[i].1)) by {
        let (i, j) = choose|i: int, j: int|
            0 <= i < n && is_linked(schema, schema.entities.entries@[i].1) && 0 <= j
                < schema.entities.entries@[i].1.edges.entries@.len()
                && (#[trigger] schema.entities.entries@[i].1.edges.entries@[j]).1.to@ == t.name@
                && #[trigger] o[k] == JsonModel::Str(handle_text(schema.entities.entries@[i].1));
        assert(schema.entities.entries@[i].1.edges.entries@[j].1.to@ == t.name@);
    }
}


/// Law: the booleans of a taxonomy's registration, read from its `config`:
/// `public` and `publicly_queryable` are `config.public`, on when it is
/// absent; `hierarchical` is `config.hierarchical`, off when absent;
/// `show_ui` and `show_admin_column` are `config.showInAdmin`, on when
/// absent; `show_in_rest` is `config.showInRest`, off when absent. A member
/// present with a value other than a boolean counts as off.
pub proof fn law_taxonomy_flags(schema: Schema, t: EntityDefinition)
    ensures
        ({
            let a = taxonomy_args(schema, t)->Object_0;
            &&& a.len() == 9
            &&& a[2].0 == "public"@ && a[3].0 == "publicly_queryable"@
            &&& a[4].0 == "hierarchical"@ && a[5].0 == "show_ui"@
            &&& a[6].0 == "show_admin_column"@ && a[7].0 == "show_in_rest"@
            &&& match config(t, "public"@) {
                None => a[2].1 == JsonModel::Bool(true) && a[3].1 == JsonModel::Bool(true),
                Some(Json::Bool(x)) => a[2].1 == JsonModel::Bool(x) && a[3].1 == JsonModel::Bool(x),
                Some(_) => a[2].1 == JsonModel::Bool(false) && a[3].1 == JsonModel::Bool(false),
            }
            &&& match config(t, "hierarchical"@) {
                None => a[4].1 == JsonModel::Bool(false),
                Some(Json::Bool(x)) => a[4].1 == JsonModel::Bool(x),
                Some(_) => a[4].1 == JsonModel::Bool(false),
            }
            &&& match config(t, "showInAdmin"@) {
                None => a[5].1 == JsonModel::Bool(true) && a[6].1 == JsonModel::Bool(true),
                Some(Json::Bool(x)) => a[5].1 == JsonModel::Bool(x) && a[6].1 == JsonModel::Bool(x),
                Some(_) => a[5].1 == JsonModel::Bool(false) && a[6].1 == JsonModel::Bool(false),
            }
            &&& match config(t, "showInRest"@) {
                None => a[7].1 == JsonModel::Bool(false),
                Some(Json::Bool(x)) => a[7].1 == JsonModel::Bool(x),
                Some(_) => a[7].1 == JsonModel::Bool(false),
            }
        }),
{
}

/// Law: the flags of a post type's registration, read from its `config`:
/// `public` and `publicly_queryable` hold exactly when `config.visibility`
/// is the string `public`, and `exclude_from_search` is their opposite;
/// `show_ui` is `config.showInAdmin` (on when absent, off when not a
/// boolean), and off whenever the entity gets admin templates instead;
/// `show_in_menu` is off exactly when `show_ui` is, and otherwise
/// `config.adminMenu` when that is a string, else on; `show_in_rest` is
/// `config.showInRest`, off when absent; `capability_type` is
/// `config.capabilityType`, else `post`.
pub proof fn law_post_flags(schema: Schema, e: EntityDefinition)
    ensures
        ({
            let a = post_args(schema, e)->Object_0;
            let templates = is_admin_enabled(schema, e);
            &&& a.len() == 10
            &&& a[2].0 == "public"@ && a[3].0 == "publicly_queryable"@
            &&& a[4].0 == "exclude_from_search"@ && a[5].0 == "show_ui"@
            &&& a[6].0 == "show_in_menu"@ && a[7].0 == "show_in_rest"@
            &&& a[8].0 == "capability_type"@
            &&& match config(e, "visibility"@) {
                Some(Json::Str(v)) => a[2].1 == JsonModel::Bool(v@ == "public"@),
                _ => a[2].1 == JsonModel::Bool(false),
            }
            &&& a[3].1 == a[2].1
            &&& (a[2].1 == JsonModel::Bool(true) && a[4].1 == JsonModel::Bool(false)) || (a[2].1
                == JsonModel::Bool(false) && a[4].1 == JsonModel::Bool(true))
            &&& match config(e, "showInAdmin"@) {
                None => a[5].1 == JsonModel::Bool(!templates),
                Some(Json::Bool(x)) => a[5].1 == JsonModel::Bool(x && !templates),
                Some(_) => a[5].1 == JsonModel::Bool(false),
            }
            &&& a[5].1 == JsonModel::Bool(false) ==> a[6].1 == JsonModel::Bool(false)
            &&& a[5].1 == JsonModel::Bool(true) ==> match config(e, "adminMenu"@) {
                Some(Json::Str(m)) => a[6].1 == JsonModel::Str(m@),
                _ => a[6].1 == JsonModel::Bool(true),
            }
            &&& match config(e, "showInRest"@) {
                Some(Json::Bool(x)) => a[7].1 == JsonModel::Bool(x),
                _ => a[7].1 == JsonModel::Bool(false),
            }
            &&& match config(e, "capabilityType"@) {
                Some(v) => a[8].1 == v@,
                None => a[8].1 == JsonModel::Str("post"@),
            }
        }),
{
}


/// Law: the label texts of the registrations, from the plural label `P`,
/// the singular label `S` and `P` lowercased: a post type's are `P`, `S`,
/// `Add New S`, `Edit S`, `New S`, `View S`, `Search P`, `No p found` and
/// `No p found in Trash`; a taxonomy's are `P`, `S`, `Search P`, `All P`,
/// `Edit S`, `Add New S` and `New S Name`. Both carry the entity's
/// description, or the empty string.
pub proof fn law_label_texts(schema: Schema, e: EntityDefinition)
    ensures
        ({
            let p = plural_label(e);
            let s = singular_label(e);
            let l = lowercase_str(p);
            let d = match e.description {
                Some(x) => x@,
                None => Seq::empty(),
            };
            &&& post_args(schema, e)->Object_0[0] == (
                "labels"@,
                JsonModel::Object(
                    seq![
                        ("name"@, JsonModel::Str(p)),
                        ("singular_name"@, JsonModel::Str(s)),
                        ("add_new_item"@, JsonModel::Str("Add New "@ + s)),
                        ("edit_item"@, JsonModel::Str("Edit "@ + s)),
                        ("new_item"@, JsonModel::Str("New "@ + s)),
                        ("view_item"@, JsonModel::Str("View "@ + s)),
                        ("search_items"@, JsonModel::Str("Search "@ + p)),
                        ("not_found"@, JsonModel::Str("No "@ + l + " found"@)),
                        ("not_found_in_trash"@, JsonModel::Str("No "@ + l + " found in Trash"@)),
                    ],
                ),
            )
            &&& post_args(schema, e)->Object_0[1] == ("description"@, JsonModel::Str(d))
            &&& taxonomy_args(schema, e)->Object_0[0] == (
                "labels"@,
                JsonModel::Object(
                    seq![
                        ("name"@, JsonModel::Str(p)),
                        ("singular_name"@, JsonModel::Str(s)),
                        ("search_items"@, JsonModel::Str("Search "@ + p)),
                        ("all_items"@, JsonModel::Str("All "@ + p)),
                        ("edit_item"@, JsonModel::Str("Edit "@ + s)),
                        ("add_new_item"@, JsonModel::Str("Add New "@ + s)),
                        ("new_item_name"@, JsonModel::Str("New "@ + s + " Name"@)),
                    ],
                ),
            )
            &&& taxonomy_args(schema, e)->Object_0[1] == ("description"@, JsonModel::Str(d))
        }),
{
}

} // verus!
