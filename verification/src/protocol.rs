//! The builder protocol: which requests are answered, and the response that
//! carries the generated files or the errors.
use vstd::prelude::*;
use crate::admin::{admin_ready, admin_spec, entity_admin_ready};
use crate::ir::{EntityDefinition, Schema};
use crate::json::{
    Json, JsonModel, at, copy, items_model, member, push_item, push_member, str_of, string,
    u64_of,
};
use crate::registration::{capabilities_fit, capability_fits, registration_spec};
use crate::render::{nesting, nesting_within};
use crate::rules::{config_value, is_admin_enabled, admin_enabled};
use crate::storage::storage_spec;
use crate::text::{append_str, owned, str_eq};

verus! {

broadcast use vstd::std_specs::vec::group_vec_axioms;

/// What a request asks for.
pub enum Request {
    Describe,
    Generate,
}

/// The texts that the generated files carry before their `return`.
pub struct Headers {
    pub storage: String,
    pub post_types: String,
    pub taxonomies: String,
}

pub open spec fn unknown_request() -> Seq<char> {
    "Unknown request. This builder answers \"generate\" and \"describe\"."@
}

/// What a request asks for, or why it is refused: the protocol version must
/// be 1 and the IR version 1.1; `request` is `describe` or `generate`
/// (absent or `null` meaning `generate`); a generate request must carry a
/// schema object with a project object.
pub open spec fn route_spec(v: Json) -> Result<Request, Seq<char>> {
    if u64_of(at(v, "elephentity"@)) != Some(1nat) {
        Err("Protocol version mismatch: this builder speaks 1."@)
    } else if str_of(at(v, "irVersion"@)) != Some("1.1"@) {
        Err("IR version mismatch: this builder speaks 1.1."@)
    } else {
        let kind: Result<Seq<char>, Seq<char>> = match member(v, "request"@) {
            None => Ok("generate"@),
            Some(Json::Null) => Ok("generate"@),
            Some(Json::Str(k)) => Ok(k@),
            Some(_) => Err(unknown_request()),
        };
        match kind {
            Err(m) => Err(m),
            Ok(k) => if k == "describe"@ {
                Ok(Request::Describe)
            } else if k == "generate"@ {
                if !(at(v, "schema"@) is Object) {
                    Err("The request carries no schema."@)
                } else if !(at(at(v, "schema"@), "project"@) is Object) {
                    Err("The schema is not readable: missing project."@)
                } else {
                    Ok(Request::Generate)
                }
            } else {
                Err(
                    "Unknown request \""@ + k
                        + "\". This builder answers \"generate\" and \"describe\"."@,
                )
            },
        }
    }
}

fn at_or_null<'a>(v: &'a Json, k: &str, null: &'a Json) -> (r: &'a Json)
    requires
        *null == Json::Null,
    ensures
        *r == at(*v, k@),
{
    match v.get(k) {
        Some(x) => x,
        None => null,
    }
}

/// What the request asks for, or the message that refuses it.
pub fn route(v: &Json) -> (r: Result<Request, String>)
    ensures
        match r {
            Ok(q) => route_spec(*v) == Ok::<Request, Seq<char>>(q),
            Err(m) => route_spec(*v) == Err::<Request, Seq<char>>(m@),
        },
{
    let null = Json::Null;
    let version = at_or_null(v, "elephentity", &null).as_u64();
    let one = match version {
        Some(n) => n == 1,
        None => false,
    };
    if !one {
        return Err(owned("Protocol version mismatch: this builder speaks 1."));
    }
    let ir = match at_or_null(v, "irVersion", &null).as_str() {
        Some(x) => str_eq(x, "1.1"),
        None => false,
    };
    if !ir {
        return Err(owned("IR version mismatch: this builder speaks 1.1."));
    }
    let kind: &str = match v.get("request") {
        None => "generate",
        Some(Json::Null) => "generate",
        Some(Json::Str(k)) => k.as_str(),
        Some(_) => {
            return Err(owned("Unknown request. This builder answers \"generate\" and \"describe\"."));
        },
    };
    if str_eq(kind, "describe") {
        return Ok(Request::Describe);
    }
    if !str_eq(kind, "generate") {
        let mut m = owned("Unknown request \"");
        append_str(&mut m, kind);
        append_str(&mut m, "\". This builder answers \"generate\" and \"describe\".");
        return Err(m);
    }
    let schema = at_or_null(v, "schema", &null);
    if !schema.is_object() {
        return Err(owned("The request carries no schema."));
    }
    if !at_or_null(schema, "project", &null).is_object() {
        return Err(owned("The schema is not readable: missing project."));
    }
    Ok(Request::Generate)
}

/// The response envelope: protocol 1, IR 1.1, PHP headers and extension,
/// with the files and the errors.
pub open spec fn response_model(files: Seq<JsonModel>, errors: Seq<Seq<char>>) -> JsonModel {
    JsonModel::Object(
        seq![
            ("elephentity"@, JsonModel::Number("1"@)),
            ("irVersion"@, JsonModel::Str("1.1"@)),
            ("headerStyle"@, JsonModel::Str("php"@)),
            ("extensions"@, JsonModel::Array(seq![JsonModel::Str("php"@)])),
            ("files"@, JsonModel::Array(files)),
            ("errors"@, JsonModel::Array(errors.map_values(|e: Seq<char>| JsonModel::Str(e)))),
        ],
    )
}

pub fn response(files: Vec<Json>, errors: Vec<String>) -> (r: Json)
    ensures
        r@ == response_model(
            items_model(files@),
            Seq::new(errors@.len(), |i: int| errors@[i]@),
        ),
{
    let mut extensions: Vec<Json> = Vec::new();
    push_item(&mut extensions, string("php"));
    let mut errs: Vec<Json> = Vec::new();
    let n = errors.len();
    let mut i: usize = 0;
    while i < n
        invariant
            i <= n == errors@.len(),
            items_model(errs@) == Seq::new(i as nat, |j: int| JsonModel::Str(errors@[j]@)),
        decreases n - i,
    {
        push_item(&mut errs, string(errors[i].as_str()));
        i = i + 1;
        assert(items_model(errs@) =~= Seq::new(i as nat, |j: int| JsonModel::Str(errors@[j]@)));
    }
    let mut m: Vec<(String, Json)> = Vec::new();
    push_member(&mut m, "elephentity", Json::Number(owned("1")));
    push_member(&mut m, "irVersion", string("1.1"));
    push_member(&mut m, "headerStyle", string("php"));
    push_member(&mut m, "extensions", Json::Array(extensions));
    push_member(&mut m, "files", Json::Array(files));
    push_member(&mut m, "errors", Json::Array(errs));
    let r = Json::Object(m);
    assert(Seq::new(errors@.len(), |i: int| errors@[i]@).map_values(
        |e: Seq<char>| JsonModel::Str(e),
    ) =~= Seq::new(n as nat, |j: int| JsonModel::Str(errors@[j]@)));
    assert(r@->Object_0 =~= response_model(
        items_model(files@),
        Seq::new(errors@.len(), |i: int| errors@[i]@),
    )->Object_0);
    r
}

/// The answer to `describe`: the capability declarations under `provides`.
pub open spec fn describe_model(provides: JsonModel) -> JsonModel {
    JsonModel::Object(
        seq![
            ("elephentity"@, JsonModel::Number("1"@)),
            ("irVersion"@, JsonModel::Str("1.1"@)),
            ("provides"@, provides),
        ],
    )
}

pub fn describe_response(provides: Json) -> (r: Json)
    ensures
        r@ == describe_model(provides@),
{
    let mut m: Vec<(String, Json)> = Vec::new();
    push_member(&mut m, "elephentity", Json::Number(owned("1")));
    push_member(&mut m, "irVersion", string("1.1"));
    push_member(&mut m, "provides", provides);
    let r = Json::Object(m);
    assert(r@->Object_0 =~= describe_model(provides@)->Object_0);
    r
}

/// A generated file as a `{"path", "body"}` object.
pub open spec fn file_entry(path: Seq<char>, body: Seq<char>) -> JsonModel {
    crate::admin::file_model(path, body)
}

fn file(path: &str, body: String) -> (r: Json)
    ensures
        r@ == file_entry(path@, body@),
{
    let mut m: Vec<(String, Json)> = Vec::new();
    push_member(&mut m, "path", string(path));
    push_member(&mut m, "body", Json::Str(body));
    let r = Json::Object(m);
    assert(r@->Object_0 =~= file_entry(path@, body@)->Object_0);
    r
}

pub open spec fn driver_message(driver: Seq<char>) -> Seq<char> {
    "This project declares driver \""@ + driver
        + "\", so the wordpress target has nothing to generate. Remove it from eleph.json, or change the driver in project.yml."@
}

/// The response to a generate request for a decoded schema. A project of
/// another driver gets no files and one error saying so; a storage error is
/// the one error of a response without files; otherwise the files are the
/// storage manifest, the post type and the taxonomy registrations and the
/// admin files, and there is no error.
pub open spec fn respond_spec(schema: Schema, headers: Headers) -> JsonModel {
    if schema.project.driver@ != "wordpress"@ {
        response_model(Seq::empty(), seq![driver_message(schema.project.driver@)])
    } else {
        match storage_spec(schema, headers.storage@) {
            Err(e) => response_model(Seq::empty(), seq![e]),
            Ok(storage) => response_model(
                seq![
                    file_entry("storage-manifest.php"@, storage),
                    file_entry(
                        "post-types.php"@,
                        registration_spec(schema, false, headers.post_types@),
                    ),
                    file_entry(
                        "taxonomies.php"@,
                        registration_spec(schema, true, headers.taxonomies@),
                    ),
                ] + admin_spec(schema),
                Seq::empty(),
            ),
        }
    }
}

/// The files can be written: the capability types and admin menus nest
/// shallowly enough, and the field names of the entities with admin
/// templates start with a single-byte character.
pub open spec fn writable(schema: Schema) -> bool {
    capabilities_fit(schema) && admin_ready(schema)
}

fn error_response(message: String) -> (r: Json)
    ensures
        r@ == response_model(Seq::empty(), seq![message@]),
{
    let ghost mv = message@;
    let mut errors: Vec<String> = Vec::new();
    errors.push(message);
    let r = response(Vec::new(), errors);
    assert(Seq::new(1nat, |i: int| errors@[i]@) =~= seq![mv]);
    proof {
        crate::json::lemma_models(Seq::<Json>::empty(), 0);
    }
    assert(items_model(Seq::<Json>::empty()) =~= Seq::<JsonModel>::empty());
    r
}

fn generated_files(schema: &Schema, headers: &Headers, storage: String) -> (r: Vec<Json>)
    requires
        writable(*schema),
    ensures
        items_model(r@) == seq![
            file_entry("storage-manifest.php"@, storage@),
            file_entry("post-types.php"@, registration_spec(*schema, false, headers.post_types@)),
            file_entry("taxonomies.php"@, registration_spec(*schema, true, headers.taxonomies@)),
        ] + admin_spec(*schema),
{
    let mut files: Vec<Json> = Vec::new();
    push_item(&mut files, file("storage-manifest.php", storage));
    push_item(
        &mut files,
        file(
            "post-types.php",
            crate::registration::generate(schema, false, headers.post_types.as_str()),
        ),
    );
    push_item(
        &mut files,
        file(
            "taxonomies.php",
            crate::registration::generate(schema, true, headers.taxonomies.as_str()),
        ),
    );
    let ghost head = items_model(files@);
    let admin = crate::admin::generate(schema);
    let ghost tail = items_model(admin@);
    let k = admin.len();
    let mut j: usize = 0;
    while j < k
        invariant
            j <= k == admin@.len(),
            tail == items_model(admin@),
            items_model(files@) == head + tail.take(j as int),
        decreases k - j,
    {
        proof {
            crate::json::lemma_models(admin@, k as nat);
        }
        push_item(&mut files, copy(&admin[j]));
        j = j + 1;
        assert(items_model(files@) =~= head + tail.take(j as int));
    }
    proof {
        crate::json::lemma_models(admin@, k as nat);
    }
    assert(tail.take(k as int) =~= tail);
    files
}

pub fn respond(schema: &Schema, headers: &Headers) -> (r: Json)
    requires
        schema.project.driver@ == "wordpress"@ && storage_spec(*schema, headers.storage@) is Ok
            ==> writable(*schema),
    ensures
        r@ == respond_spec(*schema, *headers),
{
    if !str_eq(schema.project.driver.as_str(), "wordpress") {
        let mut m = owned("This project declares driver \"");
        append_str(&mut m, schema.project.driver.as_str());
        append_str(
            &mut m,
            "\", so the wordpress target has nothing to generate. Remove it from eleph.json, or change the driver in project.yml.",
        );
        assert(m@ =~= driver_message(schema.project.driver@));
        return error_response(m);
    }
    let storage = match crate::storage::generate(schema, headers.storage.as_str()) {
        Ok(body) => body,
        Err(e) => {
            return error_response(e);
        },
    };
    let files = generated_files(schema, headers, storage);
    let errors: Vec<String> = Vec::new();
    assert(Seq::new(errors@.len(), |i: int| errors@[i]@) =~= Seq::<Seq<char>>::empty());
    response(files, errors)
}

fn entity_writable(schema: &Schema, e: &EntityDefinition) -> (r: bool)
    ensures
        r == (capability_fits(*e) && (is_admin_enabled(*schema, *e) ==> entity_admin_ready(*e))),
{
    let limit: u64 = (usize::MAX as u64) - 4;
    let cap = match config_value(e, "capabilityType") {
        Some(v) => nesting_within(v, limit),
        None => true,
    };
    if !cap || !admin_enabled(schema, e) {
        return cap;
    }
    let null = Json::Null;
    let menu = match config_value(e, "adminMenu") {
        Some(v) => v,
        None => &null,
    };
    let menu_ok = nesting_within(menu, (usize::MAX as u64) - 3);
    assert(menu@ == crate::rules::config_or_null(*e, "adminMenu"@)@);
    let fs = &e.fields.entries;
    let n = fs.len();
    let mut i: usize = 0;
    while i < n
        invariant
            i <= n == fs@.len(),
            fs == e.fields.entries,
            cap == capability_fits(*e),
            cap,
            is_admin_enabled(*schema, *e),
            menu_ok == (nesting(crate::rules::config_or_null(*e, "adminMenu"@)@) + 2 < usize::MAX),
            forall|j: int|
                0 <= j < i ==> {
                    let name = (#[trigger] fs@[j]).1.name@;
                    name.len() > 0 && (name[0] as u32) < 0x80
                },
        decreases n - i,
    {
        let name = fs[i].1.name.as_str();
        let cs = crate::text::chars_of(name);
        let ok = cs.len() > 0 && (cs[0] as u32) < 0x80;
        if !ok {
            assert(!entity_admin_ready(*e)) by {
                let nm = (fs@[i as int]).1.name@;
                assert(nm == name@);
                assert(!(nm.len() > 0 && (nm[0] as u32) < 0x80));
            }
            return false;
        }
        i = i + 1;
    }
    menu_ok
}

/// Whether the files of this schema can be written (see `writable`).
pub fn check_writable(schema: &Schema) -> (r: bool)
    ensures
        r == writable(*schema),
{
    let ents = &schema.entities.entries;
    let n = ents.len();
    let mut i: usize = 0;
    while i < n
        invariant
            i <= n == ents@.len(),
            ents == schema.entities.entries,
            forall|j: int|
                0 <= j < i ==> capability_fits(#[trigger] ents@[j].1) && (is_admin_enabled(
                    *schema,
                    ents@[j].1,
                ) ==> entity_admin_ready(ents@[j].1)),
        decreases n - i,
    {
        if !entity_writable(schema, &ents[i].1) {
            return false;
        }
        i = i + 1;
    }
    true
}

/// The response to a generate request, or `None` when the schema reaches
/// writing its files and they cannot be written (see `writable`).
pub fn respond_checked(schema: &Schema, headers: &Headers) -> (r: Option<Json>)
    ensures
        match r {
            Some(x) => x@ == respond_spec(*schema, *headers),
            None => schema.project.driver@ == "wordpress"@ && storage_spec(
                *schema,
                headers.storage@,
            ) is Ok && !writable(*schema),
        },
{
    if check_writable(schema) || !str_eq(schema.project.driver.as_str(), "wordpress") {
        return Some(respond(schema, headers));
    }
    match crate::storage::generate(schema, headers.storage.as_str()) {
        Err(_) => Some(respond(schema, headers)),
        Ok(_) => None,
    }
}


/// Law: a request that does not speak protocol 1 and IR 1.1 is refused
/// whatever else it holds, its schema included.
pub proof fn law_versions_checked_first(v: Json)
    ensures
        u64_of(at(v, "elephentity"@)) != Some(1nat) ==> route_spec(v) == Err::<Request, Seq<char>>(
            "Protocol version mismatch: this builder speaks 1."@,
        ),
        u64_of(at(v, "elephentity"@)) == Some(1nat) && str_of(at(v, "irVersion"@)) != Some(
            "1.1"@,
        ) ==> route_spec(v) == Err::<Request, Seq<char>>(
            "IR version mismatch: this builder speaks 1.1."@,
        ),
{
}

/// Law: a generate request (`request` absent, `null` or `"generate"`) that
/// passes the version gate is refused for want of a schema object, then for
/// want of a project object in it, and otherwise routed to generation.
pub proof fn law_generate_needs_schema_and_project(v: Json)
    requires
        u64_of(at(v, "elephentity"@)) == Some(1nat),
        str_of(at(v, "irVersion"@)) == Some("1.1"@),
        match member(v, "request"@) {
            None => true,
            Some(Json::Null) => true,
            Some(Json::Str(k)) => k@ == "generate"@,
            Some(_) => false,
        },
    ensures
        !(at(v, "schema"@) is Object) ==> route_spec(v) == Err::<Request, Seq<char>>(
            "The request carries no schema."@,
        ),
        at(v, "schema"@) is Object && !(at(at(v, "schema"@), "project"@) is Object)
            ==> route_spec(v) == Err::<Request, Seq<char>>(
            "The schema is not readable: missing project."@,
        ),
        at(v, "schema"@) is Object && at(at(v, "schema"@), "project"@) is Object ==> route_spec(v)
            == Ok::<Request, Seq<char>>(Request::Generate),
{
    reveal_strlit("describe");
    reveal_strlit("generate");
    assert("generate"@ != "describe"@) by {
        assert("generate"@[0] != "describe"@[0]);
    }
}

/// Law: a refused generation (a project of another driver, or a schema the
/// storage manifest cannot be written for) is answered with exactly one
/// error and no file; an accepted one with no error and, first, the storage
/// manifest, the post types and the taxonomies.
pub proof fn law_errors_exclude_files(schema: Schema, headers: Headers)
    ensures
        ({
            let r = respond_spec(schema, headers)->Object_0;
            let files = r[4].1->Array_0;
            let errors = r[5].1->Array_0;
            &&& r.len() == 6
            &&& r[4].0 == "files"@
            &&& r[5].0 == "errors"@
            &&& (errors.len() == 0) == (schema.project.driver@ == "wordpress"@ && storage_spec(
                schema,
                headers.storage@,
            ) is Ok)
            &&& errors.len() > 0 ==> errors.len() == 1 && files.len() == 0
            &&& errors.len() == 0 ==> files.len() >= 3 && files[0] == file_entry(
                "storage-manifest.php"@,
                storage_spec(schema, headers.storage@)->Ok_0,
            )
        }),
{
    let r = respond_spec(schema, headers);
    if schema.project.driver@ == "wordpress"@ {
        match storage_spec(schema, headers.storage@) {
            Ok(storage) => {
                let files = seq![
                    file_entry("storage-manifest.php"@, storage),
                    file_entry(
                        "post-types.php"@,
                        registration_spec(schema, false, headers.post_types@),
                    ),
                    file_entry(
                        "taxonomies.php"@,
                        registration_spec(schema, true, headers.taxonomies@),
                    ),
                ] + admin_spec(schema);
                assert(files[0] == file_entry("storage-manifest.php"@, storage));
                assert(Seq::<Seq<char>>::empty().map_values(|e: Seq<char>| JsonModel::Str(e))
                    =~= Seq::<JsonModel>::empty());
            },
            Err(e) => {},
        }
    }
}

} // verus!
