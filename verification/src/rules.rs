//! How the schema's settings decide what is generated for an entity.
use vstd::prelude::*;
use crate::assoc::{lookup, find};
use crate::ir::{EntityDefinition, IrMap, Schema};
use crate::json::{Json, bool_of, truthy, b};
use crate::text::str_eq;

verus! {

/// The entity's `config` member `k`.
pub open spec fn config(e: EntityDefinition, k: Seq<char>) -> Option<Json> {
    lookup(e.config.entries@, k)
}

/// `config[k]`, or `null`.
pub open spec fn config_or_null(e: EntityDefinition, k: Seq<char>) -> Json {
    match config(e, k) {
        Some(v) => v,
        None => Json::Null,
    }
}

/// The entity is a taxonomy: `config.taxonomy` is `true`.
pub open spec fn is_taxonomy(e: EntityDefinition) -> bool {
    truthy(config_or_null(e, "taxonomy"@))
}

/// The entity holds accounts: `config.account` is `true`.
pub open spec fn is_account(e: EntityDefinition) -> bool {
    truthy(config_or_null(e, "account"@))
}

/// The boolean under `integrations.wordpress.<key>`, when there is one.
pub open spec fn wordpress_flag(integrations: IrMap<IrMap<Json>>, key: Seq<char>) -> Option<bool> {
    match lookup(integrations.entries@, "wordpress"@) {
        Some(m) => match lookup(m.entries@, key) {
            Some(v) => bool_of(v),
            None => None,
        },
        None => None,
    }
}

/// A WordPress setting for an entity: the entity's own boolean, else the
/// project's, else on for `adminTemplates` and off for every other key.
pub open spec fn setting_spec(schema: Schema, e: EntityDefinition, key: Seq<char>) -> bool {
    match wordpress_flag(e.integrations, key) {
        Some(v) => v,
        None => match wordpress_flag(schema.project.integrations, key) {
            Some(v) => v,
            None => key == "adminTemplates"@,
        },
    }
}

/// The entity is linked to a WordPress post type: neither taxonomy nor
/// account, stored by the `wordpress` driver with a handle, and `linkPosts`
/// is on.
pub open spec fn is_linked(schema: Schema, e: EntityDefinition) -> bool {
    &&& !is_taxonomy(e)
    &&& !is_account(e)
    &&& e.storage.driver@ == "wordpress"@
    &&& e.storage.handle is Some
    &&& setting_spec(schema, e, "linkPosts"@)
}

/// The entity gets admin templates: neither taxonomy nor account,
/// `adminTemplates` is on and `config.showInAdmin` is not `false`.
pub open spec fn is_admin_enabled(schema: Schema, e: EntityDefinition) -> bool {
    &&& !is_taxonomy(e)
    &&& !is_account(e)
    &&& setting_spec(schema, e, "adminTemplates"@)
    &&& match bool_of(config_or_null(e, "showInAdmin"@)) {
        Some(v) => v,
        None => true,
    }
}

/// The entity's `config` member `k`, or `null`.
pub fn config_value<'a>(e: &'a EntityDefinition, k: &str) -> (r: Option<&'a Json>)
    ensures
        match r {
            Some(x) => config(*e, k@) == Some(*x),
            None => config(*e, k@) is None,
        },
{
    find(&e.config.entries, k)
}

fn config_flag(e: &EntityDefinition, k: &str) -> (r: bool)
    ensures
        r == truthy(config_or_null(*e, k@)),
{
    match config_value(e, k) {
        Some(v) => b(v),
        None => false,
    }
}

pub fn taxonomy(e: &EntityDefinition) -> (r: bool)
    ensures
        r == is_taxonomy(*e),
{
    config_flag(e, "taxonomy")
}

pub fn account(e: &EntityDefinition) -> (r: bool)
    ensures
        r == is_account(*e),
{
    config_flag(e, "account")
}

fn flag(integrations: &IrMap<IrMap<Json>>, key: &str) -> (r: Option<bool>)
    ensures
        r == wordpress_flag(*integrations, key@),
{
    match find(&integrations.entries, "wordpress") {
        Some(m) => match find(&m.entries, key) {
            Some(v) => v.as_bool(),
            None => None,
        },
        None => None,
    }
}

pub fn setting(schema: &Schema, e: &EntityDefinition, key: &str) -> (r: bool)
    ensures
        r == setting_spec(*schema, *e, key@),
{
    match flag(&e.integrations, key) {
        Some(v) => v,
        None => match flag(&schema.project.integrations, key) {
            Some(v) => v,
            None => str_eq(key, "adminTemplates"),
        },
    }
}

pub fn linked(schema: &Schema, e: &EntityDefinition) -> (r: bool)
    ensures
        r == is_linked(*schema, *e),
{
    !taxonomy(e) && !account(e) && str_eq(e.storage.driver.as_str(), "wordpress")
        && e.storage.handle.is_some() && setting(schema, e, "linkPosts")
}

pub fn admin_enabled(schema: &Schema, e: &EntityDefinition) -> (r: bool)
    ensures
        r == is_admin_enabled(*schema, *e),
{
    !taxonomy(e) && !account(e) && setting(schema, e, "adminTemplates") && match config_value(
        e,
        "showInAdmin",
    ) {
        Some(v) => match v.as_bool() {
            Some(x) => x,
            None => true,
        },
        None => true,
    }
}


/// Law: an entity's own WordPress setting wins over the project's, the
/// project's applies where the entity sets none, and where neither sets one
/// admin templates are on and post linking is off.
pub proof fn law_setting_precedence(schema: Schema, e: EntityDefinition, key: Seq<char>)
    ensures
        wordpress_flag(e.integrations, key) matches Some(x) ==> setting_spec(schema, e, key) == x,
        wordpress_flag(e.integrations, key) is None ==> (wordpress_flag(
            schema.project.integrations,
            key,
        ) matches Some(x) ==> setting_spec(schema, e, key) == x),
        wordpress_flag(e.integrations, "adminTemplates"@) is None && wordpress_flag(
            schema.project.integrations,
            "adminTemplates"@,
        ) is None ==> setting_spec(schema, e, "adminTemplates"@),
        wordpress_flag(e.integrations, "linkPosts"@) is None && wordpress_flag(
            schema.project.integrations,
            "linkPosts"@,
        ) is None ==> !setting_spec(schema, e, "linkPosts"@),
{
    reveal_strlit("linkPosts");
    reveal_strlit("adminTemplates");
    assert("linkPosts"@ != "adminTemplates"@) by {
        assert("linkPosts"@[0] != "adminTemplates"@[0]);
    }
}

/// Law: a linked entity is never a taxonomy or an account, is stored by the
/// `wordpress` driver and has a post type handle; an entity with admin
/// templates is never a taxonomy or an account either.
pub proof fn law_linked_entities(schema: Schema, e: EntityDefinition)
    ensures
        is_linked(schema, e) ==> !is_taxonomy(e) && !is_account(e) && e.storage.handle is Some
            && e.storage.driver@ == "wordpress"@ && setting_spec(schema, e, "linkPosts"@),
        is_admin_enabled(schema, e) ==> !is_taxonomy(e) && !is_account(e),
{
}

} // verus!
