//! Admin templates: a list and a detail view per entity, and the admin pages
//! that point at them.
use vstd::prelude::*;
use vstd::string::StrSliceExecFns;
use crate::assoc::{entries_view, mput, put_entry};
use crate::ir::{EntityDefinition, Schema};
use crate::json::{
    Json, JsonModel, copy, entries_model, items_model, lemma_entries_view_model, push_item,
    push_member, string,
};
use crate::registration::{plural_label, plural_of, post_args, singular_label, singular_of, taxonomy_args};
use crate::render::{lemma_object_nesting, nesting, render, render_model};
use crate::rules::{admin_enabled, config, config_or_null, is_admin_enabled};
use crate::text::{
    append_str, humanise, humanise_spec, owned, plural_spec, push_quoted, quoted, str_to_uppercase,
    uppercase_str,
};

verus! {

broadcast use vstd::std_specs::vec::group_vec_axioms;

/// A field's name with its first character uppercased.
pub open spec fn field_title(name: Seq<char>) -> Seq<char> {
    uppercase_str(seq![name[0]]) + name.drop_first()
}

/// The first `n` fields' columns of the admin views: `id` as `ID`, then each
/// field by name with its title as words.
pub open spec fn admin_fields(e: EntityDefinition, n: nat) -> Seq<(Seq<char>, JsonModel)>
    decreases n,
{
    if n == 0 {
        seq![("id"@, JsonModel::Str("ID"@))]
    } else {
        let name = e.fields.entries@[n - 1].1.name@;
        mput(admin_fields(e, (n - 1) as nat), name, JsonModel::Str(humanise_spec(field_title(name))))
    }
}

/// The columns of the entity's admin views as PHP source.
pub open spec fn fields_text(e: EntityDefinition) -> Seq<char> {
    render_model(JsonModel::Object(admin_fields(e, e.fields.entries@.len())), 1)
}

/// A view template that calls `$view-><method>` with the title and columns.
pub open spec fn view_body(method: Seq<char>, title: Seq<char>, fields: Seq<char>) -> Seq<char> {
    "use Eleph\\WordPress\\Admin\\View;\n\nreturn static function (View $view, array $data): void {\n    /** @var array<string, mixed> $data */\n    $view->"@
        + method + "("@ + quoted(title) + ", "@ + fields + ", $data);\n};\n"@
}

/// A generated file: its path and body.
pub open spec fn file_model(path: Seq<char>, body: Seq<char>) -> JsonModel {
    JsonModel::Object(seq![("path"@, JsonModel::Str(path)), ("body"@, JsonModel::Str(body))])
}

pub open spec fn view_path(name: Seq<char>, kind: Seq<char>) -> Seq<char> {
    "admin/"@ + name + "/"@ + kind + ".php"@
}

/// The list and detail templates of an entity.
pub open spec fn entity_files(e: EntityDefinition) -> Seq<JsonModel> {
    let name = e.name@;
    seq![
        file_model(view_path(name, "list"@), view_body("listing"@, plural_label(e), fields_text(e))),
        file_model(view_path(name, "detail"@), view_body("detail"@, singular_label(e), fields_text(e))),
    ]
}

/// The admin page of an entity.
pub open spec fn page_model(e: EntityDefinition) -> JsonModel {
    let name = e.name@;
    JsonModel::Object(
        seq![
            ("label"@, JsonModel::Str(plural_label(e))),
            ("slug"@, JsonModel::Str("eleph-"@ + e.storage.table@)),
            ("parent"@, config_or_null(e, "adminMenu"@)@),
            ("list"@, JsonModel::Str(view_path(name, "list"@))),
            ("detail"@, JsonModel::Str(view_path(name, "detail"@))),
        ],
    )
}

/// The templates and the pages of the first `n` entities.
pub open spec fn admin_of(schema: Schema, n: nat) -> (Seq<JsonModel>, Seq<(Seq<char>, JsonModel)>)
    decreases n,
{
    if n == 0 {
        (Seq::empty(), Seq::empty())
    } else {
        let (files, pages) = admin_of(schema, (n - 1) as nat);
        let e = schema.entities.entries@[n - 1].1;
        if is_admin_enabled(schema, e) {
            (files + entity_files(e), mput(pages, e.name@, page_model(e)))
        } else {
            (files, pages)
        }
    }
}

/// The admin files: `admin-pages.php`, returning the pages as a PHP array,
/// then the list and detail templates of each entity that gets them.
#[verifier::opaque]
pub open spec fn admin_spec(schema: Schema) -> Seq<JsonModel> {
    let (files, pages) = admin_of(schema, schema.entities.entries@.len());
    seq![
        file_model(
            "admin-pages.php"@,
            "return "@ + render_model(JsonModel::Object(pages), 0) + ";\n"@,
        ),
    ] + files
}

/// What admin templates can be written for: every field name starts with a
/// single-byte character, and `config.adminMenu` nests shallowly enough.
pub open spec fn entity_admin_ready(e: EntityDefinition) -> bool {
    &&& forall|j: int|
        0 <= j < e.fields.entries@.len() ==> {
            let name = (#[trigger] e.fields.entries@[j]).1.name@;
            name.len() > 0 && (name[0] as u32) < 0x80
        }
    &&& nesting(config_or_null(e, "adminMenu"@)@) + 2 < usize::MAX
}

pub open spec fn admin_ready(schema: Schema) -> bool {
    forall|i: int|
        0 <= i < schema.entities.entries@.len() && is_admin_enabled(
            schema,
            #[trigger] schema.entities.entries@[i].1,
        ) ==> entity_admin_ready(schema.entities.entries@[i].1)
}

fn title_of(name: &str) -> (r: String)
    requires
        name@.len() > 0,
    ensures
        r@ == field_title(name@),
{
    let n = name.unicode_len();
    let mut t = str_to_uppercase(name.substring_char(0, 1));
    append_str(&mut t, name.substring_char(1, n));
    assert(name@.subrange(0, 1) =~= seq![name@[0]]);
    assert(name@.subrange(1, n as int) =~= name@.drop_first());
    t
}

proof fn lemma_admin_fields_flat(e: EntityDefinition, n: nat)
    ensures
        forall|i: int|
            0 <= i < admin_fields(e, n).len() ==> nesting(#[trigger] admin_fields(e, n)[i].1) == 0,
    decreases n,
{
    if n > 0 {
        lemma_admin_fields_flat(e, (n - 1) as nat);
        let m = admin_fields(e, (n - 1) as nat);
        let name = e.fields.entries@[n - 1].1.name@;
        let v = JsonModel::Str(humanise_spec(field_title(name)));
        crate::assoc::lemma_mkey_index_bounds(m, name);
        let r = mput(m, name, v);
        assert forall|i: int| 0 <= i < r.len() implies nesting(#[trigger] r[i].1) == 0 by {
            if i < m.len() && r[i] != (name, v) {
                assert(r[i] == m[i]);
            }
        }
    }
}

fn fields_of(e: &EntityDefinition) -> (r: String)
    requires
        entity_admin_ready(*e),
    ensures
        r@ == fields_text(*e),
{
    let fs = &e.fields.entries;
    let n = fs.len();
    let mut m: Vec<(String, Json)> = Vec::new();
    push_member(&mut m, "id", string("ID"));
    proof {
        crate::json::lemma_entry_models(m@, 1);
        assert(entries_model(m@) =~= admin_fields(*e, 0));
        lemma_entries_view_model(m@);
    }
    let mut i: usize = 0;
    while i < n
        invariant
            i <= n == fs@.len(),
            fs == e.fields.entries,
            entity_admin_ready(*e),
            entries_view(m@) == admin_fields(*e, i as nat),
        decreases n - i,
    {
        let name = fs[i].1.name.as_str();
        assert(name@ == (e.fields.entries@[i as int]).1.name@);
        let title = title_of(name);
        let value = Json::Str(humanise(title.as_str()));
        put_entry(&mut m, owned(name), value);
        i = i + 1;
    }
    proof {
        lemma_admin_fields_flat(*e, n as nat);
        lemma_object_nesting(entries_view(m@), 0);
        lemma_entries_view_model(m@);
    }
    let v = Json::Object(m);
    render(&v, 1)
}

fn view_file(name: &str, kind: &str, method: &str, title: &str, fields: &str) -> (r: Json)
    ensures
        r@ == file_model(view_path(name@, kind@), view_body(method@, title@, fields@)),
{
    let mut path = owned("admin/");
    append_str(&mut path, name);
    append_str(&mut path, "/");
    append_str(&mut path, kind);
    append_str(&mut path, ".php");
    let mut body = owned(
        "use Eleph\\WordPress\\Admin\\View;\n\nreturn static function (View $view, array $data): void {\n    /** @var array<string, mixed> $data */\n    $view->",
    );
    append_str(&mut body, method);
    append_str(&mut body, "(");
    push_quoted(&mut body, title);
    append_str(&mut body, ", ");
    append_str(&mut body, fields);
    append_str(&mut body, ", $data);\n};\n");
    let mut m: Vec<(String, Json)> = Vec::new();
    push_member(&mut m, "path", Json::Str(path));
    push_member(&mut m, "body", Json::Str(body));
    let r = Json::Object(m);
    assert(r@->Object_0 =~= file_model(view_path(name@, kind@), view_body(method@, title@, fields@))->Object_0);
    r
}

fn page_of(e: &EntityDefinition, plural: &str) -> (r: Json)
    requires
        plural@ == plural_label(*e),
    ensures
        r@ == page_model(*e),
{
    let name = e.name.as_str();
    let mut m: Vec<(String, Json)> = Vec::new();
    push_member(&mut m, "label", string(plural));
    let mut slug = owned("eleph-");
    append_str(&mut slug, e.storage.table.as_str());
    push_member(&mut m, "slug", Json::Str(slug));
    let null = Json::Null;
    let parent = copy(crate::registration::configured(e, "adminMenu", &null));
    assert(parent@ == config_or_null(*e, "adminMenu"@)@);
    push_member(&mut m, "parent", parent);
    let mut list = owned("admin/");
    append_str(&mut list, name);
    append_str(&mut list, "/");
    append_str(&mut list, "list");
    append_str(&mut list, ".php");
    push_member(&mut m, "list", Json::Str(list));
    let mut detail = owned("admin/");
    append_str(&mut detail, name);
    append_str(&mut detail, "/");
    append_str(&mut detail, "detail");
    append_str(&mut detail, ".php");
    push_member(&mut m, "detail", Json::Str(detail));
    let r = Json::Object(m);
    assert(r@->Object_0 =~= page_model(*e)->Object_0);
    r
}

proof fn lemma_pages_nesting(schema: Schema, n: nat)
    requires
        admin_ready(schema),
        n <= schema.entities.entries@.len(),
    ensures
        forall|i: int|
            0 <= i < admin_of(schema, n).1.len() ==> nesting(#[trigger] admin_of(schema, n).1[i].1)
                + 1 < usize::MAX,
    decreases n,
{
    if n > 0 {
        lemma_pages_nesting(schema, (n - 1) as nat);
        let (files, pages) = admin_of(schema, (n - 1) as nat);
        let e = schema.entities.entries@[n - 1].1;
        if is_admin_enabled(schema, e) {
            assert(entity_admin_ready(e));
            let v = page_model(e);
            let b = nesting(config_or_null(e, "adminMenu"@)@);
            lemma_object_nesting(v->Object_0, b);
            crate::assoc::lemma_mkey_index_bounds(pages, e.name@);
            let r = mput(pages, e.name@, v);
            assert forall|i: int| 0 <= i < r.len() implies nesting(#[trigger] r[i].1) + 1
                < usize::MAX by {
                if i < pages.len() && r[i] != (e.name@, v) {
                    assert(r[i] == pages[i]);
                }
            }
        }
    }
}

/// The admin files: `admin-pages.php` first, then a list and a detail
/// template for each entity that gets admin templates, in schema order.
pub fn generate(schema: &Schema) -> (r: Vec<Json>)
    requires
        admin_ready(*schema),
    ensures
        items_model(r@) == admin_spec(*schema),
{
    reveal(admin_spec);
    let ents = &schema.entities.entries;
    let n = ents.len();
    let mut files: Vec<Json> = Vec::new();
    let mut pages: Vec<(String, Json)> = Vec::new();
    let mut i: usize = 0;
    while i < n
        invariant
            i <= n == ents@.len(),
            ents == schema.entities.entries,
            admin_ready(*schema),
            items_model(files@) == admin_of(*schema, i as nat).0,
            entries_view(pages@) == admin_of(*schema, i as nat).1,
        decreases n - i,
    {
        let e = &ents[i].1;
        if admin_enabled(schema, e) {
            assert(entity_admin_ready(schema.entities.entries@[i as int].1));
            let name = e.name.as_str();
            let label = singular_of(e);
            let plural = plural_of(e, label.as_str());
            let fields = fields_of(e);
            let ghost before = items_model(files@);
            push_item(
                &mut files,
                view_file(name, "list", "listing", plural.as_str(), fields.as_str()),
            );
            push_item(
                &mut files,
                view_file(name, "detail", "detail", label.as_str(), fields.as_str()),
            );
            assert(items_model(files@) =~= before + entity_files(*e));
            put_entry(&mut pages, owned(name), page_of(e, plural.as_str()));
        }
        i = i + 1;
    }
    proof {
        lemma_pages_nesting(*schema, n as nat);
        lemma_object_nesting(entries_view(pages@), (usize::MAX - 2) as nat);
        lemma_entries_view_model(pages@);
    }
    let ghost rest = items_model(files@);
    let ghost old_files = files@;
    let pages_value = Json::Object(pages);
    let mut body = owned("return ");
    let rendered = render(&pages_value, 0);
    append_str(&mut body, rendered.as_str());
    append_str(&mut body, ";\n");
    let mut m: Vec<(String, Json)> = Vec::new();
    push_member(&mut m, "path", string("admin-pages.php"));
    push_member(&mut m, "body", Json::Str(body));
    let index_file = Json::Object(m);
    let ghost first = index_file@;
    files.insert(0, index_file);
    proof {
        crate::json::lemma_models(files@, files@.len());
        assert(files@.drop_first() =~= old_files);
        crate::json::lemma_models(old_files, old_files.len());
        assert(items_model(files@) =~= seq![first] + rest);
    }
    assert(first->Object_0 =~= admin_spec(*schema)[0]->Object_0);
    files
}


/// Law: an entity's labels. The singular label is `config.label` when that
/// is a string, else the name as words; the plural label is
/// `config.pluralLabel` when that is a string, and only otherwise the plural
/// of the singular label. The admin page's `label` and the list view's
/// title are the plural label and the detail view's title the singular one;
/// the post type and taxonomy registrations are named by the plural label
/// with the singular one as `singular_name`.
pub proof fn law_labels(schema: Schema, e: EntityDefinition)
    ensures
        match config(e, "label"@) {
            Some(Json::Str(l)) => singular_label(e) == l@,
            _ => singular_label(e) == humanise_spec(e.name@),
        },
        match config(e, "pluralLabel"@) {
            Some(Json::Str(p)) => plural_label(e) == p@,
            _ => plural_label(e) == plural_spec(singular_label(e)),
        },
        page_model(e)->Object_0[0] == ("label"@, JsonModel::Str(plural_label(e))),
        entity_files(e)[0] == file_model(
            view_path(e.name@, "list"@),
            view_body("listing"@, plural_label(e), fields_text(e)),
        ),
        entity_files(e)[1] == file_model(
            view_path(e.name@, "detail"@),
            view_body("detail"@, singular_label(e), fields_text(e)),
        ),
        post_args(schema, e)->Object_0[0].1->Object_0[0] == ("name"@, JsonModel::Str(
            plural_label(e),
        )),
        post_args(schema, e)->Object_0[0].1->Object_0[1] == ("singular_name"@, JsonModel::Str(
            singular_label(e),
        )),
        taxonomy_args(schema, e)->Object_0[0].1->Object_0[0] == ("name"@, JsonModel::Str(
            plural_label(e),
        )),
        taxonomy_args(schema, e)->Object_0[0].1->Object_0[1] == ("singular_name"@, JsonModel::Str(
            singular_label(e),
        )),
{
}


/// Law: an entity's admin page is labelled with the plural label, has the
/// slug `eleph-<table>`, `config.adminMenu` (or `null`) as its parent menu,
/// and points at `admin/<Name>/list.php` and `admin/<Name>/detail.php`.
pub proof fn law_admin_page(e: EntityDefinition)
    ensures
        page_model(e)->Object_0 == seq![
            ("label"@, JsonModel::Str(plural_label(e))),
            ("slug"@, JsonModel::Str("eleph-"@ + e.storage.table@)),
            (
                "parent"@,
                match config(e, "adminMenu"@) {
                    Some(v) => v@,
                    None => JsonModel::Null,
                },
            ),
            ("list"@, JsonModel::Str("admin/"@ + e.name@ + "/list.php"@)),
            ("detail"@, JsonModel::Str("admin/"@ + e.name@ + "/detail.php"@)),
        ],
{
    reveal_strlit("/");
    reveal_strlit("/list.php");
    reveal_strlit("/detail.php");
    reveal_strlit(".php");
    reveal_strlit("list");
    reveal_strlit("detail");
    assert("/"@ + "list"@ + ".php"@ =~= "/list.php"@);
    assert("/"@ + "detail"@ + ".php"@ =~= "/detail.php"@);
    assert(view_path(e.name@, "list"@) =~= "admin/"@ + e.name@ + "/list.php"@);
    assert(view_path(e.name@, "detail"@) =~= "admin/"@ + e.name@ + "/detail.php"@);
    assert(config_or_null(e, "adminMenu"@)@ == match config(e, "adminMenu"@) {
        Some(v) => v@,
        None => JsonModel::Null,
    });
}

/// Law: the columns of an entity's admin views: `id` comes first, titled
/// `ID` unless a field is named `id`; every field is a column under its
/// name, titled by its name with the first character uppercased and a
/// space before each later ASCII capital.
pub proof fn law_admin_columns(e: EntityDefinition, n: nat)
    requires
        n <= e.fields.entries@.len(),
    ensures
        admin_fields(e, n)[0].0 == "id"@,
        (forall|j: int| 0 <= j < n ==> (#[trigger] e.fields.entries@[j]).1.name@ != "id"@)
            ==> crate::assoc::mlookup(admin_fields(e, n), "id"@) == Some(JsonModel::Str("ID"@)),
        forall|j: int|
            0 <= j < n ==> crate::assoc::mlookup(
                admin_fields(e, n),
                (#[trigger] e.fields.entries@[j]).1.name@,
            ) == Some(JsonModel::Str(humanise_spec(field_title(e.fields.entries@[j].1.name@)))),
    decreases n,
{
    let fs = e.fields.entries@;
    if n == 0 {
        crate::assoc::lemma_mkey_index(admin_fields(e, 0), "id"@, 0);
    } else {
        law_admin_columns(e, (n - 1) as nat);
        let m = admin_fields(e, (n - 1) as nat);
        let name = fs[n - 1].1.name@;
        let v = JsonModel::Str(humanise_spec(field_title(name)));
        crate::assoc::lemma_mkey_index_bounds(m, name);
        if crate::assoc::mkey_index(m, name) == 0 {
            assert(m[0].0 == name);
        }
        assert forall|j: int| 0 <= j < n implies crate::assoc::mlookup(
            admin_fields(e, n),
            (#[trigger] fs[j]).1.name@,
        ) == Some(JsonModel::Str(humanise_spec(field_title(fs[j].1.name@)))) by {
            crate::assoc::law_put_lookup(m, name, v, fs[j].1.name@);
        }
        crate::assoc::law_put_lookup(m, name, v, "id"@);
    }
}

} // verus!
