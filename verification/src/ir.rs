//! The wire IR (version 1.1) that the builder reads: the compiled schema, as
//! the typed values that a request's `schema` member decodes to.
use vstd::prelude::*;
use crate::json::Json;

verus! {

/// A map of the IR: its entries in the order of the request. A decoded map
/// holds each key once; a lookup goes by the first entry with the key.
pub struct IrMap<T> {
    pub entries: Vec<(String, T)>,
}

impl<T> IrMap<T> {
    /// The empty map.
    pub fn new() -> (r: Self)
        ensures
            r.entries@.len() == 0,
    {
        IrMap { entries: Vec::new() }
    }
}

pub enum Primitive {
    String,
    Text,
    Int,
    Float,
    Bool,
    Datetime,
    Id,
    Enum,
    Json,
}

pub enum Cardinality {
    One,
    Many,
}

pub enum OnDelete {
    Restrict,
    Cascade,
    Nullify,
}

pub enum Managed {
    Created,
    Modified,
}

pub enum TriggerEvent {
    Create,
    Update,
    Delete,
}

pub enum TriggerPhase {
    PreCommit,
    PostCommit,
}

pub enum TerminalRule {
    Allow,
    Deny,
}

pub struct Schema {
    pub project: ProjectDefinition,
    pub entities: IrMap<EntityDefinition>,
    pub types: IrMap<TypeDefinition>,
    pub patterns: IrMap<PatternDeclaration>,
}

pub struct ProjectDefinition {
    pub name: String,
    pub driver: String,
    pub source_file: String,
    pub integrations: IrMap<IrMap<Json>>,
    pub table_prefix: String,
    pub description: Option<String>,
}

pub struct EntityDefinition {
    pub name: String,
    pub storage: StorageDefinition,
    pub source_file: String,
    pub description: Option<String>,
    pub uses: Vec<String>,
    pub fields: IrMap<FieldDefinition>,
    pub edges: IrMap<EdgeDefinition>,
    pub queries: IrMap<QueryDefinition>,
    pub actions: IrMap<ActionDefinition>,
    pub triggers: IrMap<TriggerDefinition>,
    pub config: IrMap<Json>,
    pub integrations: IrMap<IrMap<Json>>,
    pub applied_patterns: Vec<String>,
    pub read_policies: IrMap<PolicyDefinition>,
    pub write_policies: IrMap<PolicyDefinition>,
    pub terminal_read: TerminalRule,
    pub terminal_write: TerminalRule,
}

pub struct StorageDefinition {
    pub driver: String,
    pub table: String,
    pub handle: Option<String>,
}

pub struct TypeDefinition {
    pub name: String,
    pub primitive: Primitive,
    pub source_file: String,
    pub description: Option<String>,
    pub has_processors: bool,
    pub values: Option<Vec<String>>,
}

pub struct PatternDeclaration {
    pub name: String,
    pub fields: IrMap<FieldDefinition>,
    pub edges: IrMap<EdgeDefinition>,
    pub read_policies: IrMap<PolicyDefinition>,
    pub write_policies: IrMap<PolicyDefinition>,
}

pub struct PolicyDefinition {
    pub name: String,
    pub origin: Origin,
    pub description: Option<String>,
}

pub struct FieldDefinition {
    pub name: String,
    pub ty: TypeReference,
    pub origin: Origin,
    pub description: Option<String>,
    pub required: bool,
    pub nullable: bool,
    pub default_value: Json,
    pub has_default: bool,
    pub unique: bool,
    pub indexed: bool,
    pub immutable: bool,
    pub managed: Option<Managed>,
    pub max_length: Option<i64>,
    pub enum_source: Option<EnumSource>,
    pub verify: bool,
}

pub struct EdgeDefinition {
    pub name: String,
    pub to: String,
    pub cardinality: Cardinality,
    pub origin: Origin,
    pub description: Option<String>,
    pub inverse: Option<EdgeInverse>,
    pub on_delete: OnDelete,
    pub required: bool,
}

pub struct EdgeInverse {
    pub derived: bool,
    pub name: Option<String>,
    pub unique: bool,
}

pub struct ActionDefinition {
    pub name: String,
    pub writes: ActionWrites,
    pub origin: Origin,
    pub arguments: IrMap<ArgumentDefinition>,
    pub description: Option<String>,
}

pub struct ActionWrites {
    pub fields: Vec<String>,
    pub edges: Vec<String>,
}

pub struct QueryDefinition {
    pub name: String,
    pub returns: ReturnDefinition,
    pub origin: Origin,
    pub arguments: IrMap<ArgumentDefinition>,
    pub description: Option<String>,
    pub integrations: IrMap<IrMap<Json>>,
}

pub struct ReturnDefinition {
    pub ty: String,
    pub cardinality: Cardinality,
}

pub struct TriggerDefinition {
    pub name: String,
    pub events: Vec<TriggerEvent>,
    pub origin: Origin,
    pub phase: TriggerPhase,
    pub description: Option<String>,
}

pub struct ArgumentDefinition {
    pub name: String,
    pub ty: TypeReference,
    pub nullable: bool,
}

pub struct TypeReference {
    pub primitive: Option<Primitive>,
    pub declared_type: Option<String>,
}

pub struct Origin {
    pub pattern: Option<String>,
    pub file: String,
}

pub struct EnumSource {
    pub inline_values: Option<Vec<String>>,
    pub declared_type: Option<String>,
}

} // verus!
