//! The storage manifest: the tables that hold the entities, where each edge
//! is stored, and the taxonomy, account and post links.
use vstd::prelude::*;
use crate::assoc::{
    entries_view, find, lookup, mhas_key, mcontains_key, mkey_index, mlookup, msorted_put,
    mposition, sorted_put_entry, lemma_mkey_index_bounds, lemma_msorted_put_values,
};
use crate::ir::{Cardinality, EdgeDefinition, EntityDefinition, FieldDefinition, Managed, Primitive, Schema};
use crate::rules::{
    is_account, is_linked, is_taxonomy, setting_spec, account, linked, setting, taxonomy,
};
use crate::text::{
    append_str, bool_text, chars_of, decimal, low, low_spec, push_bool, push_char, push_decimal,
    push_quoted, q, quoted, snake, snake_spec, str_eq, string_of,
};

verus! {

/// A `Result` of strings as characters.
pub open spec fn text_result(r: Result<String, String>) -> Result<Seq<char>, Seq<char>> {
    match r {
        Ok(x) => Ok(x@),
        Err(e) => Err(e@),
    }
}

/// The characters of each string.
pub open spec fn views(s: Seq<String>) -> Seq<Seq<char>> {
    Seq::new(s.len(), |i: int| s[i]@)
}

/// `name` of the given SQL type as a `Column` constructor call.
pub open spec fn column_spec(name: Seq<char>, ty: Seq<char>, nullable: bool, auto: bool) -> Seq<
    char,
> {
    "new Column("@ + quoted(name) + ", "@ + quoted(ty) + ", "@ + bool_text(nullable) + ", "@
        + bool_text(auto) + ", null)"@
}

pub fn column(name: &str, ty: &str, nullable: bool, auto: bool) -> (r: String)
    ensures
        r@ == column_spec(name@, ty@, nullable, auto),
{
    let mut r = String::new();
    append_str(&mut r, "new Column(");
    push_quoted(&mut r, name);
    append_str(&mut r, ", ");
    push_quoted(&mut r, ty);
    append_str(&mut r, ", ");
    push_bool(&mut r, nullable);
    append_str(&mut r, ", ");
    push_bool(&mut r, auto);
    append_str(&mut r, ", null)");
    assert(r@ =~= column_spec(name@, ty@, nullable, auto));
    r
}

/// The quoted names, separated by `, `.
pub open spec fn quoted_list(cols: Seq<Seq<char>>) -> Seq<char>
    decreases cols.len(),
{
    if cols.len() == 0 {
        Seq::empty()
    } else if cols.len() == 1 {
        quoted(cols[0])
    } else {
        quoted_list(cols.drop_last()) + ", "@ + quoted(cols.last())
    }
}

/// The name of an index: `<table>_<key>_uniq` (or `_idx`), cut to its first
/// 64 characters.
pub open spec fn index_name(table: Seq<char>, key: Seq<char>, unique: bool) -> Seq<char> {
    let full = table + "_"@ + key + "_"@ + (if unique {
        "uniq"@
    } else {
        "idx"@
    });
    if full.len() <= 64 {
        full
    } else {
        full.take(64)
    }
}

/// The name and the `Index` constructor call of an index over `cols`.
pub open spec fn index_spec(table: Seq<char>, key: Seq<char>, cols: Seq<Seq<char>>, unique: bool) -> (
    Seq<char>,
    Seq<char>,
) {
    let name = index_name(table, key, unique);
    (name, "new Index("@ + quoted(name) + ", ["@ + quoted_list(cols) + "], "@ + bool_text(unique)
        + ")"@)
}

pub fn index(table: &str, key: &str, columns: &Vec<String>, unique: bool) -> (r: (String, String))
    ensures
        (r.0@, r.1@) == index_spec(table@, key@, views(columns@), unique),
{
    let mut full = String::new();
    append_str(&mut full, table);
    append_str(&mut full, "_");
    append_str(&mut full, key);
    append_str(&mut full, "_");
    if unique {
        append_str(&mut full, "uniq");
    } else {
        append_str(&mut full, "idx");
    }
    let ghost whole = table@ + "_"@ + key@ + "_"@ + (if unique {
        "uniq"@
    } else {
        "idx"@
    });
    assert(full@ =~= whole);
    let cs = chars_of(full.as_str());
    let n = if cs.len() <= 64 {
        cs.len()
    } else {
        64
    };
    let name = string_of(&cs, 0, n);
    assert(name@ =~= index_name(table@, key@, unique));
    let mut expr = String::new();
    append_str(&mut expr, "new Index(");
    push_quoted(&mut expr, name.as_str());
    append_str(&mut expr, ", [");
    let ghost start = expr@;
    let ghost cols = views(columns@);
    let k = columns.len();
    let mut i: usize = 0;
    while i < k
        invariant
            i <= k == columns@.len(),
            cols == views(columns@),
            expr@ == start + quoted_list(cols.take(i as int)),
        decreases k - i,
    {
        if i > 0 {
            append_str(&mut expr, ", ");
        }
        push_quoted(&mut expr, columns[i].as_str());
        assert(cols.take(i + 1).drop_last() =~= cols.take(i as int));
        i = i + 1;
        assert(expr@ =~= start + quoted_list(cols.take(i as int)));
    }
    assert(cols.take(k as int) =~= cols);
    append_str(&mut expr, "], ");
    push_bool(&mut expr, unique);
    append_str(&mut expr, ")");
    assert(expr@ =~= index_spec(table@, key@, cols, unique).1);
    (name, expr)
}

/// The byte length of a string, as `str::len` reports it.
pub open spec fn byte_len(s: Seq<char>) -> nat {
    (vstd::utf8::encode_utf8(s).len() as usize) as nat
}

/// The longest byte length among the first `n` values.
pub open spec fn longest(values: Seq<String>, n: nat) -> nat
    decreases n,
{
    if n == 0 || n > values.len() {
        0
    } else {
        let a = longest(values, (n - 1) as nat);
        let b = byte_len(values[n - 1]@);
        if a < b {
            b
        } else {
            a
        }
    }
}

/// The column type of an enumeration: `VARCHAR(64)` without values, else a
/// `VARCHAR` as long as the longest value in bytes (at least 1).
pub open spec fn size_spec(values: Seq<String>) -> Seq<char> {
    let n: nat = if values.len() == 0 {
        64
    } else {
        let l = longest(values, values.len());
        if l < 1 {
            1
        } else {
            l
        }
    };
    "VARCHAR("@ + decimal(n) + ")"@
}

pub fn size(values: &Vec<String>) -> (r: String)
    ensures
        r@ == size_spec(values@),
{
    let n = values.len();
    let mut longest_len: usize = 0;
    let mut i: usize = 0;
    while i < n
        invariant
            i <= n == values@.len(),
            longest_len == longest(values@, i as nat),
        decreases n - i,
    {
        let l = values[i].as_str().len();
        if longest_len < l {
            longest_len = l;
        }
        i = i + 1;
    }
    let width: usize = if n == 0 {
        64
    } else if longest_len < 1 {
        1
    } else {
        longest_len
    };
    let mut r = String::new();
    append_str(&mut r, "VARCHAR(");
    push_decimal(&mut r, width as u64);
    append_str(&mut r, ")");
    assert(r@ =~= size_spec(values@));
    r
}

/// The values of the enumeration a field's `enum` source names: its inline
/// values, else those of the declared type it names (none when there is no
/// such type or it has no values).
pub open spec fn enum_values(schema: Schema, f: FieldDefinition) -> Seq<String>
    recommends
        f.enum_source is Some,
{
    let en = f.enum_source->Some_0;
    match en.inline_values {
        Some(v) => v@,
        None => {
            let n = match en.declared_type {
                Some(d) => d@,
                None => Seq::empty(),
            };
            match lookup(schema.types.entries@, n) {
                Some(t) => match t.values {
                    Some(v) => v@,
                    None => Seq::empty(),
                },
                None => Seq::empty(),
            }
        },
    }
}

/// The SQL type of a field of the given primitive.
pub open spec fn primitive_column(schema: Schema, f: FieldDefinition, p: Primitive) -> Seq<char> {
    match p {
        Primitive::String => "VARCHAR("@ + decimal(
            match f.max_length {
                Some(m) => if m >= 0 {
                    m as nat
                } else {
                    255
                },
                None => 255,
            },
        ) + ")"@,
        Primitive::Text => "LONGTEXT"@,
        Primitive::Json => "LONGTEXT"@,
        Primitive::Int => "BIGINT"@,
        Primitive::Float => "DOUBLE"@,
        Primitive::Bool => "TINYINT(1)"@,
        Primitive::Datetime => "DATETIME"@,
        Primitive::Id => "BIGINT UNSIGNED"@,
        Primitive::Enum => match f.enum_source {
            None => "VARCHAR(64)"@,
            Some(_) => size_spec(enum_values(schema, f)),
        },
    }
}

/// The SQL type of a field: from its primitive, or else from the declared
/// type it names (an enumeration type with values sizes by them). A declared
/// type that the schema lacks is an error.
pub open spec fn column_type_spec(schema: Schema, f: FieldDefinition) -> Result<
    Seq<char>,
    Seq<char>,
> {
    match f.ty.primitive {
        Some(p) => Ok(primitive_column(schema, f, p)),
        None => {
            let n = match f.ty.declared_type {
                Some(d) => d@,
                None => Seq::empty(),
            };
            match lookup(schema.types.entries@, n) {
                None => Err(
                    "Field "@ + f.name@ + " references declared type \""@ + n
                        + "\", which the schema compiler should already have proved exists."@,
                ),
                Some(t) => match t.values {
                    Some(v) => Ok(size_spec(v@)),
                    None => Ok(primitive_column(schema, f, t.primitive)),
                },
            }
        },
    }
}

fn enum_column(schema: &Schema, f: &FieldDefinition) -> (r: String)
    requires
        f.enum_source is Some,
    ensures
        r@ == size_spec(enum_values(*schema, *f)),
{
    let empty: Vec<String> = Vec::new();
    let values: &Vec<String> = match &f.enum_source {
        Some(en) => match &en.inline_values {
            Some(v) => v,
            None => {
                let n: &str = match &en.declared_type {
                    Some(d) => d.as_str(),
                    None => {
                        proof {
                            reveal_strlit("");
                        }
                        ""
                    },
                };
                let ghost nn = match &en.declared_type {
                    Some(d) => d@,
                    None => Seq::empty(),
                };
                assert(n@ == nn);
                match find(&schema.types.entries, n) {
                    Some(t) => {
                        assert(lookup(schema.types.entries@, nn) == Some(*t));
                        match &t.values {
                            Some(v) => v,
                            None => &empty,
                        }
                    },
                    None => &empty,
                }
            },
        },
        None => &empty,
    };
    assert(values@ =~= enum_values(*schema, *f));
    size(values)
}

fn primitive_type(schema: &Schema, f: &FieldDefinition, p: &Primitive) -> (r: String)
    ensures
        r@ == primitive_column(*schema, *f, *p),
{
    let mut r = String::new();
    match p {
        Primitive::String => {
            let m: u64 = match f.max_length {
                Some(m) => if m >= 0 {
                    m as u64
                } else {
                    255
                },
                None => 255,
            };
            append_str(&mut r, "VARCHAR(");
            push_decimal(&mut r, m);
            append_str(&mut r, ")");
        },
        Primitive::Text => append_str(&mut r, "LONGTEXT"),
        Primitive::Json => append_str(&mut r, "LONGTEXT"),
        Primitive::Int => append_str(&mut r, "BIGINT"),
        Primitive::Float => append_str(&mut r, "DOUBLE"),
        Primitive::Bool => append_str(&mut r, "TINYINT(1)"),
        Primitive::Datetime => append_str(&mut r, "DATETIME"),
        Primitive::Id => append_str(&mut r, "BIGINT UNSIGNED"),
        Primitive::Enum => {
            if f.enum_source.is_some() {
                r = enum_column(schema, f);
            } else {
                append_str(&mut r, "VARCHAR(64)");
            }
        },
    }
    assert(r@ =~= primitive_column(*schema, *f, *p));
    r
}

pub fn column_type(schema: &Schema, f: &FieldDefinition) -> (r: Result<String, String>)
    ensures
        text_result(r) == column_type_spec(*schema, *f),
{
    match &f.ty.primitive {
        Some(p) => Ok(primitive_type(schema, f, p)),
        None => {
            let n: &str = match &f.ty.declared_type {
                Some(d) => d.as_str(),
                None => {
                    proof {
                        reveal_strlit("");
                    }
                    ""
                },
            };
            let ghost nn = match &f.ty.declared_type {
                Some(d) => d@,
                None => Seq::empty(),
            };
            assert(n@ == nn);
            match find(&schema.types.entries, n) {
                None => {
                    let mut e = String::new();
                    append_str(&mut e, "Field ");
                    append_str(&mut e, f.name.as_str());
                    append_str(&mut e, " references declared type \"");
                    append_str(&mut e, n);
                    append_str(
                        &mut e,
                        "\", which the schema compiler should already have proved exists.",
                    );
                    assert(e@ =~= "Field "@ + f.name@ + " references declared type \""@ + n@
                        + "\", which the schema compiler should already have proved exists."@);
                    Err(e)
                },
                Some(t) => match &t.values {
                    Some(v) => Ok(size(v)),
                    None => Ok(primitive_type(schema, f, &t.primitive)),
                },
            }
        },
    }
}

/// `n` spaces.
pub open spec fn spaces(n: nat) -> Seq<char> {
    Seq::new(n, |i: int| ' ')
}

/// One `'key' => value,` line of a PHP array at the given indentation.
pub open spec fn pair_line(k: Seq<char>, v: Seq<char>, ind: nat) -> Seq<char> {
    spaces(ind) + quoted(k) + " => "@ + v + ","@
}

/// The lines of the entries, separated by line breaks.
pub open spec fn pairs_spec(entries: Seq<(Seq<char>, Seq<char>)>, ind: nat) -> Seq<char>
    decreases entries.len(),
{
    if entries.len() == 0 {
        Seq::empty()
    } else if entries.len() == 1 {
        pair_line(entries[0].0, entries[0].1, ind)
    } else {
        pairs_spec(entries.drop_last(), ind) + "\n"@ + pair_line(
            entries.last().0,
            entries.last().1,
            ind,
        )
    }
}

fn push_spaces(s: &mut String, n: usize)
    ensures
        final(s)@ == old(s)@ + spaces(n as nat),
{
    let ghost start = s@;
    let mut i: usize = 0;
    while i < n
        invariant
            i <= n,
            s@ == start + spaces(i as nat),
        decreases n - i,
    {
        push_char(s, ' ');
        i = i + 1;
        assert(s@ =~= start + spaces(i as nat));
    }
}

pub fn pairs(entries: &Vec<(String, String)>, indent: usize) -> (r: String)
    ensures
        r@ == pairs_spec(entries_view(entries@), indent as nat),
{
    let ghost es = entries_view(entries@);
    let mut r = String::new();
    let n = entries.len();
    let mut i: usize = 0;
    while i < n
        invariant
            i <= n == entries@.len(),
            es == entries_view(entries@),
            r@ == pairs_spec(es.take(i as int), indent as nat),
        decreases n - i,
    {
        if i > 0 {
            append_str(&mut r, "\n");
        }
        push_spaces(&mut r, indent);
        push_quoted(&mut r, entries[i].0.as_str());
        append_str(&mut r, " => ");
        append_str(&mut r, entries[i].1.as_str());
        append_str(&mut r, ",");
        assert(es.take(i + 1).drop_last() =~= es.take(i as int));
        i = i + 1;
        assert(r@ =~= pairs_spec(es.take(i as int), indent as nat));
    }
    assert(es.take(n as int) =~= es);
    r
}


// ---------------------------------------------------------------------------
// Tables
// ---------------------------------------------------------------------------

/// A table of the manifest: its name, its columns and indexes (each a name
/// with the PHP expression that declares it) and its primary key column.
pub struct Table {
    pub name: String,
    pub columns: Vec<(String, String)>,
    pub indexes: Vec<(String, String)>,
    pub primary: String,
}

#[verifier::ext_equal]
pub struct TableModel {
    pub name: Seq<char>,
    pub columns: Seq<(Seq<char>, Seq<char>)>,
    pub indexes: Seq<(Seq<char>, Seq<char>)>,
    pub primary: Seq<char>,
}

impl View for Table {
    type V = TableModel;

    open spec fn view(&self) -> TableModel {
        TableModel {
            name: self.name@,
            columns: entries_view(self.columns@),
            indexes: entries_view(self.indexes@),
            primary: self.primary@,
        }
    }
}

/// A table as a `TableSchema` constructor call.
pub open spec fn table_expr_spec(t: TableModel) -> Seq<char> {
    "new TableSchema(\n            "@ + quoted(t.name) + ",\n            [\n"@ + pairs_spec(
        t.columns,
        16,
    ) + "\n            ],\n            [\n"@ + pairs_spec(t.indexes, 16)
        + "\n            ],\n            "@ + quoted(t.primary) + ",\n        )"@
}

pub fn table_expr(t: &Table) -> (r: String)
    ensures
        r@ == table_expr_spec(t@),
{
    let mut r = String::new();
    append_str(&mut r, "new TableSchema(\n            ");
    push_quoted(&mut r, t.name.as_str());
    append_str(&mut r, ",\n            [\n");
    let cols = pairs(&t.columns, 16);
    append_str(&mut r, cols.as_str());
    append_str(&mut r, "\n            ],\n            [\n");
    let idx = pairs(&t.indexes, 16);
    append_str(&mut r, idx.as_str());
    append_str(&mut r, "\n            ],\n            ");
    push_quoted(&mut r, t.primary.as_str());
    append_str(&mut r, ",\n        )");
    assert(r@ =~= table_expr_spec(t@));
    r
}

/// How an edge relates its two entities.
pub enum Relation {
    OneToOne,
    ManyToOne,
    OneToMany,
    ManyToMany,
}

pub open spec fn relation_name(r: Relation) -> Seq<char> {
    match r {
        Relation::OneToOne => "OneToOne"@,
        Relation::ManyToOne => "ManyToOne"@,
        Relation::OneToMany => "OneToMany"@,
        Relation::ManyToMany => "ManyToMany"@,
    }
}

/// The relation of an edge from its cardinality and whether its inverse is
/// unique.
pub open spec fn relation_of(one: bool, unique: bool) -> Relation {
    if one {
        if unique {
            Relation::OneToOne
        } else {
            Relation::ManyToOne
        }
    } else if unique {
        Relation::OneToMany
    } else {
        Relation::ManyToMany
    }
}

/// Where an edge is stored: the table and the local column (and, for a
/// many-to-many edge, the remote column of its join table).
pub struct Placement {
    pub entity: String,
    pub edge: String,
    pub target: String,
    pub relation: Relation,
    pub table: String,
    pub local: String,
    pub remote: Option<String>,
    pub target_table: String,
}

#[verifier::ext_equal]
pub struct PlacementModel {
    pub entity: Seq<char>,
    pub edge: Seq<char>,
    pub target: Seq<char>,
    pub relation: Relation,
    pub table: Seq<char>,
    pub local: Seq<char>,
    pub remote: Option<Seq<char>>,
    pub target_table: Seq<char>,
}

impl View for Placement {
    type V = PlacementModel;

    open spec fn view(&self) -> PlacementModel {
        PlacementModel {
            entity: self.entity@,
            edge: self.edge@,
            target: self.target@,
            relation: self.relation,
            table: self.table@,
            local: self.local@,
            remote: match self.remote {
                Some(r) => Some(r@),
                None => None,
            },
            target_table: self.target_table@,
        }
    }
}

/// What the entities lay out before the edges are placed: the tables by
/// name, the edge placements and the taxonomy placements in order.
pub struct Layout {
    pub tables: Vec<(String, Table)>,
    pub placements: Vec<Placement>,
    pub taxonomy_placements: Vec<(String, String)>,
}

#[verifier::ext_equal]
pub struct LayoutModel {
    pub tables: Seq<(Seq<char>, TableModel)>,
    pub placements: Seq<PlacementModel>,
    pub taxonomy_placements: Seq<(Seq<char>, Seq<char>)>,
}

pub open spec fn placement_views(s: Seq<Placement>) -> Seq<PlacementModel> {
    Seq::new(s.len(), |i: int| s[i]@)
}

impl View for Layout {
    type V = LayoutModel;

    open spec fn view(&self) -> LayoutModel {
        LayoutModel {
            tables: entries_view(self.tables@),
            placements: placement_views(self.placements@),
            taxonomy_placements: entries_view(self.taxonomy_placements@),
        }
    }
}

pub open spec fn bigint_unsigned() -> Seq<char> {
    "BIGINT UNSIGNED"@
}

/// The table of an entity before its fields: an auto-increment `id`, and for
/// a linked entity a nullable, uniquely indexed `wp_post_id`.
pub open spec fn base_table(schema: Schema, e: EntityDefinition) -> TableModel {
    let table = e.storage.table@;
    let t = TableModel {
        name: table,
        columns: seq![("id"@, column_spec("id"@, bigint_unsigned(), false, true))],
        indexes: Seq::empty(),
        primary: "id"@,
    };
    if is_linked(schema, e) {
        TableModel {
            columns: t.columns.push(
                ("wp_post_id"@, column_spec("wp_post_id"@, bigint_unsigned(), true, false)),
            ),
            indexes: t.indexes.push(index_spec(table, "wp_post_id"@, seq!["wp_post_id"@], true)),
            ..t
        }
    } else {
        t
    }
}

/// A field added to its entity's table: a column named in snake case, and an
/// index when it is unique or indexed. Two fields, or a field and a column
/// already there, that map to one column name are an error.
pub open spec fn add_field_spec(
    schema: Schema,
    e: EntityDefinition,
    f: FieldDefinition,
    t: TableModel,
) -> Result<TableModel, Seq<char>> {
    let n = snake_spec(f.name@);
    if mhas_key(t.columns, n) {
        Err(
            "Fields "@ + e.name@ + "."@ + f.name@ + " and another map to the same column \""@ + n
                + "\"."@,
        )
    } else {
        match column_type_spec(schema, f) {
            Err(m) => Err(m),
            Ok(ty) => Ok(
                TableModel {
                    columns: t.columns.push((n, column_spec(n, ty, f.nullable, false))),
                    indexes: if f.unique || f.indexed {
                        t.indexes.push(index_spec(e.storage.table@, n, seq![n], f.unique))
                    } else {
                        t.indexes
                    },
                    ..t
                },
            ),
        }
    }
}

/// The entity's table after its first `n` fields.
pub open spec fn fields_table(schema: Schema, e: EntityDefinition, n: nat) -> Result<
    TableModel,
    Seq<char>,
>
    decreases n,
{
    if n == 0 {
        Ok(base_table(schema, e))
    } else {
        match fields_table(schema, e, (n - 1) as nat) {
            Err(m) => Err(m),
            Ok(t) => add_field_spec(schema, e, e.fields.entries@[n - 1].1, t),
        }
    }
}

pub open spec fn table_result(r: Result<Table, String>) -> Result<TableModel, Seq<char>> {
    match r {
        Ok(t) => Ok(t@),
        Err(m) => Err(m@),
    }
}

fn string_vec1(a: &str) -> (r: Vec<String>)
    ensures
        views(r@) == seq![a@],
{
    let mut v: Vec<String> = Vec::new();
    v.push(String::from_str(a));
    assert(views(v@) =~= seq![a@]);
    v
}

fn string_vec2(a: &str, b: &str) -> (r: Vec<String>)
    ensures
        views(r@) == seq![a@, b@],
{
    let mut v: Vec<String> = Vec::new();
    v.push(String::from_str(a));
    v.push(String::from_str(b));
    assert(views(v@) =~= seq![a@, b@]);
    v
}

fn new_table(schema: &Schema, e: &EntityDefinition) -> (t: Table)
    ensures
        t@ == base_table(*schema, *e),
{
    let table = e.storage.table.as_str();
    let mut columns: Vec<(String, String)> = Vec::new();
    columns.push((String::from_str("id"), column("id", "BIGINT UNSIGNED", false, true)));
    let mut indexes: Vec<(String, String)> = Vec::new();
    if linked(schema, e) {
        columns.push(
            (String::from_str("wp_post_id"), column("wp_post_id", "BIGINT UNSIGNED", true, false)),
        );
        indexes.push(index(table, "wp_post_id", &string_vec1("wp_post_id"), true));
    }
    let t = Table {
        name: String::from_str(table),
        columns,
        indexes,
        primary: String::from_str("id"),
    };
    assert(t@.columns =~= base_table(*schema, *e).columns);
    assert(t@.indexes =~= base_table(*schema, *e).indexes);
    t
}

fn add_field(schema: &Schema, e: &EntityDefinition, f: &FieldDefinition, t: &mut Table) -> (r:
    Result<(), String>)
    ensures
        match r {
            Ok(_) => add_field_spec(*schema, *e, *f, old(t)@) == Ok::<TableModel, Seq<char>>(
                final(t)@,
            ),
            Err(m) => add_field_spec(*schema, *e, *f, old(t)@) == Err::<TableModel, Seq<char>>(
                m@,
            ),
        },
{
    let n = snake(f.name.as_str());
    if mcontains_key(&t.columns, n.as_str()) {
        let mut m = String::new();
        append_str(&mut m, "Fields ");
        append_str(&mut m, e.name.as_str());
        append_str(&mut m, ".");
        append_str(&mut m, f.name.as_str());
        append_str(&mut m, " and another map to the same column \"");
        append_str(&mut m, n.as_str());
        append_str(&mut m, "\".");
        assert(m@ =~= "Fields "@ + e.name@ + "."@ + f.name@
            + " and another map to the same column \""@ + n@ + "\"."@);
        return Err(m);
    }
    let ty = match column_type(schema, f) {
        Ok(ty) => ty,
        Err(m) => {
            return Err(m);
        },
    };
    let ghost before = t@;
    let c = column(n.as_str(), ty.as_str(), f.nullable, false);
    if f.unique || f.indexed {
        let i = index(e.storage.table.as_str(), n.as_str(), &string_vec1(n.as_str()), f.unique);
        t.indexes.push(i);
    }
    t.columns.push((n, c));
    assert(t@.columns =~= before.columns.push((n@, c@)));
    proof {
        if f.unique || f.indexed {
            assert(t@.indexes =~= before.indexes.push(
                index_spec(e.storage.table@, n@, seq![n@], f.unique),
            ));
        } else {
            assert(t@.indexes =~= before.indexes);
        }
    }
    Ok(())
}


proof fn lemma_fields_error(schema: Schema, e: EntityDefinition, k: nat, n: nat)
    requires
        k <= n,
        fields_table(schema, e, k) is Err,
    ensures
        fields_table(schema, e, n) == fields_table(schema, e, k),
    decreases n,
{
    if k < n {
        lemma_fields_error(schema, e, k, (n - 1) as nat);
    }
}

/// The entity's table with all its fields, or the first error.
pub fn entity_table(schema: &Schema, e: &EntityDefinition) -> (r: Result<Table, String>)
    ensures
        table_result(r) == fields_table(*schema, *e, e.fields.entries@.len()),
{
    let mut t = new_table(schema, e);
    let n = e.fields.entries.len();
    let mut i: usize = 0;
    while i < n
        invariant
            i <= n == e.fields.entries@.len(),
            fields_table(*schema, *e, i as nat) == Ok::<TableModel, Seq<char>>(t@),
        decreases n - i,
    {
        match add_field(schema, e, &e.fields.entries[i].1, &mut t) {
            Ok(_) => {},
            Err(m) => {
                proof {
                    lemma_fields_error(*schema, *e, (i + 1) as nat, n as nat);
                }
                return Err(m);
            },
        }
        i = i + 1;
    }
    Ok(t)
}

/// The handle of an entity's post type or taxonomy, or the empty string.
pub open spec fn handle_text(e: EntityDefinition) -> Seq<char> {
    match e.storage.handle {
        Some(h) => h@,
        None => Seq::empty(),
    }
}

/// A taxonomy placement as a `TaxonomyPlacement` constructor call.
pub open spec fn taxonomy_placement_spec(
    en: Seq<char>,
    name: Seq<char>,
    to: Seq<char>,
    handle: Seq<char>,
) -> Seq<char> {
    "new TaxonomyPlacement(\n            "@ + quoted(en) + ",\n            "@ + quoted(name)
        + ",\n            "@ + quoted(to) + ",\n            "@ + quoted(handle)
        + ",\n        )"@
}

/// The name, in snake case, that an edge stored on the target's table
/// points back with: the inverse's name, or the source entity's name with a
/// lowercase first letter when the inverse is absent or derived.
pub open spec fn inverse_name(e: EntityDefinition, edge: EdgeDefinition) -> Seq<char> {
    match edge.inverse {
        None => low_spec(e.name@),
        Some(i) => if i.derived {
            low_spec(e.name@)
        } else {
            match i.name {
                Some(n) => n@,
                None => Seq::empty(),
            }
        },
    }
}

/// Where an edge from `e` to `target` is stored. A many-to-many edge gets a
/// join table `<table>_<edge>` with a column for each side; an edge to one
/// target gets a column `<edge>_id` on the entity's table; an edge to many
/// targets gets a column on the target's table.
pub open spec fn placement_spec(
    e: EntityDefinition,
    edge: EdgeDefinition,
    target: EntityDefinition,
    relation: Relation,
) -> PlacementModel {
    let en = e.name@;
    let name = edge.name@;
    let to = target.name@;
    let table = e.storage.table@;
    let tt = target.storage.table@;
    let (pt, local, remote) = match relation {
        Relation::ManyToMany => (
            table + "_"@ + snake_spec(name),
            snake_spec(low_spec(en)) + "_id"@,
            Some(
                snake_spec(
                    low_spec(
                        if en == to {
                            name
                        } else {
                            to
                        },
                    ),
                ) + "_id"@,
            ),
        ),
        Relation::OneToMany => (tt, snake_spec(inverse_name(e, edge)) + "_id"@, None),
        _ => (table, snake_spec(name) + "_id"@, None),
    };
    PlacementModel {
        entity: en,
        edge: name,
        target: to,
        relation,
        table: pt,
        local,
        remote,
        target_table: tt,
    }
}

/// The layout after one edge of `e`: nothing for an edge to an entity that
/// the schema lacks, a taxonomy placement for a many-to-many edge to a
/// taxonomy, and an edge placement otherwise.
pub open spec fn edge_step(
    schema: Schema,
    e: EntityDefinition,
    edge: EdgeDefinition,
    st: LayoutModel,
) -> LayoutModel {
    match lookup(schema.entities.entries@, edge.to@) {
        None => st,
        Some(target) => {
            let unique = match edge.inverse {
                Some(i) => i.unique,
                None => false,
            };
            let relation = relation_of(edge.cardinality is One, unique);
            if relation is ManyToMany && is_taxonomy(target) {
                LayoutModel {
                    taxonomy_placements: st.taxonomy_placements.push(
                        (
                            e.name@ + "."@ + edge.name@,
                            taxonomy_placement_spec(
                                e.name@,
                                edge.name@,
                                target.name@,
                                handle_text(target),
                            ),
                        ),
                    ),
                    ..st
                }
            } else {
                LayoutModel {
                    placements: st.placements.push(placement_spec(e, edge, target, relation)),
                    ..st
                }
            }
        },
    }
}

/// The layout after the first `n` edges of `e`.
pub open spec fn edges_layout(schema: Schema, e: EntityDefinition, st: LayoutModel, n: nat) -> LayoutModel
    decreases n,
{
    if n == 0 {
        st
    } else {
        edge_step(schema, e, e.edges.entries@[n - 1].1, edges_layout(schema, e, st, (n - 1) as nat))
    }
}

fn id_column_name(s: &str) -> (r: String)
    ensures
        r@ == snake_spec(s@) + "_id"@,
{
    let mut r = snake(s);
    append_str(&mut r, "_id");
    r
}

fn add_edge(schema: &Schema, e: &EntityDefinition, edge: &EdgeDefinition, layout: &mut Layout)
    ensures
        final(layout)@ == edge_step(*schema, *e, *edge, old(layout)@),
{
    let target = match find(&schema.entities.entries, edge.to.as_str()) {
        None => {
            return ;
        },
        Some(t) => t,
    };
    let en = e.name.as_str();
    let name = edge.name.as_str();
    let to = target.name.as_str();
    let one = match edge.cardinality {
        Cardinality::One => true,
        Cardinality::Many => false,
    };
    let unique = match &edge.inverse {
        Some(i) => i.unique,
        None => false,
    };
    let relation = if one {
        if unique {
            Relation::OneToOne
        } else {
            Relation::ManyToOne
        }
    } else if unique {
        Relation::OneToMany
    } else {
        Relation::ManyToMany
    };
    let many_to_many = !one && !unique;
    let ghost before = layout@;
    if many_to_many && taxonomy(target) {
        let mut key = String::from_str(en);
        append_str(&mut key, ".");
        append_str(&mut key, name);
        let mut expr = String::new();
        append_str(&mut expr, "new TaxonomyPlacement(\n            ");
        push_quoted(&mut expr, en);
        append_str(&mut expr, ",\n            ");
        push_quoted(&mut expr, name);
        append_str(&mut expr, ",\n            ");
        push_quoted(&mut expr, to);
        append_str(&mut expr, ",\n            ");
        match &target.storage.handle {
            Some(h) => push_quoted(&mut expr, h.as_str()),
            None => {
                proof {
                    reveal_strlit("");
                }
                push_quoted(&mut expr, "");
            },
        }
        append_str(&mut expr, ",\n        )");
        assert(key@ =~= e.name@ + "."@ + edge.name@);
        assert(expr@ =~= taxonomy_placement_spec(
            e.name@,
            edge.name@,
            target.name@,
            handle_text(*target),
        ));
        layout.taxonomy_placements.push((key, expr));
        assert(layout@.taxonomy_placements =~= before.taxonomy_placements.push(
            (key@, expr@),
        ));
        return ;
    }
    let tt = target.storage.table.as_str();
    let table = e.storage.table.as_str();
    let placement = if many_to_many {
        let mut pt = String::from_str(table);
        append_str(&mut pt, "_");
        let sn = snake(name);
        append_str(&mut pt, sn.as_str());
        let local = id_column_name(low(en).as_str());
        let other = if str_eq(en, to) {
            name
        } else {
            to
        };
        let remote = id_column_name(low(other).as_str());
        Placement {
            entity: String::from_str(en),
            edge: String::from_str(name),
            target: String::from_str(to),
            relation,
            table: pt,
            local,
            remote: Some(remote),
            target_table: String::from_str(tt),
        }
    } else if one {
        Placement {
            entity: String::from_str(en),
            edge: String::from_str(name),
            target: String::from_str(to),
            relation,
            table: String::from_str(table),
            local: id_column_name(name),
            remote: None,
            target_table: String::from_str(tt),
        }
    } else {
        let inverse = match &edge.inverse {
            Some(i) => if i.derived {
                low(en)
            } else {
                match &i.name {
                    Some(n) => String::from_str(n.as_str()),
                    None => String::new(),
                }
            },
            None => low(en),
        };
        Placement {
            entity: String::from_str(en),
            edge: String::from_str(name),
            target: String::from_str(to),
            relation,
            table: String::from_str(tt),
            local: id_column_name(inverse.as_str()),
            remote: None,
            target_table: String::from_str(tt),
        }
    };
    assert(placement@ =~= placement_spec(*e, *edge, *target, relation));
    layout.placements.push(placement);
    assert(layout@.placements =~= before.placements.push(placement@));
}


/// The layout after an entity's table: its table (unless it is a taxonomy or
/// holds accounts) under its table name. An entity that asks for post
/// linking without a post type handle is an error, as is any error of its
/// fields.
pub open spec fn table_step(schema: Schema, e: EntityDefinition, st: LayoutModel) -> Result<
    LayoutModel,
    Seq<char>,
> {
    if !is_taxonomy(e) && !is_account(e) {
        if setting_spec(schema, e, "linkPosts"@) && e.storage.handle is None {
            Err(
                "Entity "@ + e.name@
                    + " enables WordPress post linking but has no storage.handle."@,
            )
        } else {
            match fields_table(schema, e, e.fields.entries@.len()) {
                Err(m) => Err(m),
                Ok(t) => Ok(
                    LayoutModel { tables: msorted_put(st.tables, e.storage.table@, t), ..st },
                ),
            }
        }
    } else {
        Ok(st)
    }
}

/// The layout after an entity: its table, then its edges.
pub open spec fn entity_step(schema: Schema, e: EntityDefinition, st: LayoutModel) -> Result<
    LayoutModel,
    Seq<char>,
> {
    match table_step(schema, e, st) {
        Err(m) => Err(m),
        Ok(s) => Ok(edges_layout(schema, e, s, e.edges.entries@.len())),
    }
}

pub open spec fn empty_layout() -> LayoutModel {
    LayoutModel {
        tables: Seq::empty(),
        placements: Seq::empty(),
        taxonomy_placements: Seq::empty(),
    }
}

/// The layout after the first `n` entities, or the first error.
pub open spec fn layout_of(schema: Schema, n: nat) -> Result<LayoutModel, Seq<char>>
    decreases n,
{
    if n == 0 {
        Ok(empty_layout())
    } else {
        match layout_of(schema, (n - 1) as nat) {
            Err(m) => Err(m),
            Ok(st) => entity_step(schema, schema.entities.entries@[n - 1].1, st),
        }
    }
}

proof fn lemma_layout_error(schema: Schema, k: nat, n: nat)
    requires
        k <= n,
        layout_of(schema, k) is Err,
    ensures
        layout_of(schema, n) == layout_of(schema, k),
    decreases n,
{
    if k < n {
        lemma_layout_error(schema, k, (n - 1) as nat);
    }
}

fn add_entity(schema: &Schema, e: &EntityDefinition, layout: &mut Layout) -> (r: Result<(), String>)
    ensures
        match r {
            Ok(_) => entity_step(*schema, *e, old(layout)@) == Ok::<LayoutModel, Seq<char>>(
                final(layout)@,
            ),
            Err(m) => entity_step(*schema, *e, old(layout)@) == Err::<LayoutModel, Seq<char>>(
                m@,
            ),
        },
{
    if !taxonomy(e) && !account(e) {
        if setting(schema, e, "linkPosts") && e.storage.handle.is_none() {
            let mut m = String::from_str("Entity ");
            append_str(&mut m, e.name.as_str());
            append_str(&mut m, " enables WordPress post linking but has no storage.handle.");
            assert(m@ =~= "Entity "@ + e.name@
                + " enables WordPress post linking but has no storage.handle."@);
            return Err(m);
        }
        let t = match entity_table(schema, e) {
            Ok(t) => t,
            Err(m) => {
                return Err(m);
            },
        };
        sorted_put_entry(&mut layout.tables, String::from_str(e.storage.table.as_str()), t);
    }
    let ghost mid = layout@;
    let n = e.edges.entries.len();
    let mut i: usize = 0;
    while i < n
        invariant
            i <= n == e.edges.entries@.len(),
            layout@ == edges_layout(*schema, *e, mid, i as nat),
        decreases n - i,
    {
        add_edge(schema, e, &e.edges.entries[i].1, layout);
        i = i + 1;
    }
    Ok(())
}

/// The tables, edge placements and taxonomy placements of all entities.
pub fn lay_out(schema: &Schema) -> (r: Result<Layout, String>)
    ensures
        match r {
            Ok(l) => layout_of(*schema, schema.entities.entries@.len()) == Ok::<
                LayoutModel,
                Seq<char>,
            >(l@),
            Err(m) => layout_of(*schema, schema.entities.entries@.len()) == Err::<
                LayoutModel,
                Seq<char>,
            >(m@),
        },
{
    let mut layout = Layout {
        tables: Vec::new(),
        placements: Vec::new(),
        taxonomy_placements: Vec::new(),
    };
    assert(layout@.tables =~= empty_layout().tables);
    assert(layout@.placements =~= empty_layout().placements);
    assert(layout@.taxonomy_placements =~= empty_layout().taxonomy_placements);
    let n = schema.entities.entries.len();
    let mut i: usize = 0;
    while i < n
        invariant
            i <= n == schema.entities.entries@.len(),
            layout_of(*schema, i as nat) == Ok::<LayoutModel, Seq<char>>(layout@),
        decreases n - i,
    {
        match add_entity(schema, &schema.entities.entries[i].1, &mut layout) {
            Ok(_) => {},
            Err(m) => {
                proof {
                    lemma_layout_error(*schema, (i + 1) as nat, n as nat);
                }
                return Err(m);
            },
        }
        i = i + 1;
    }
    Ok(layout)
}


// ---------------------------------------------------------------------------
// Placing the edges
// ---------------------------------------------------------------------------

/// The join table of a many-to-many edge: a column for each side (one when
/// both sides have the same name), a unique index over the pair and an index
/// over the remote side, and no primary key.
pub open spec fn join_table(table: Seq<char>, left: Seq<char>, right: Seq<char>) -> TableModel {
    TableModel {
        name: table,
        columns: if left == right {
            seq![(left, column_spec(left, bigint_unsigned(), false, false))]
        } else {
            seq![
                (left, column_spec(left, bigint_unsigned(), false, false)),
                (right, column_spec(right, bigint_unsigned(), false, false)),
            ]
        },
        indexes: seq![
            index_spec(table, "pair"@, seq![left, right], true),
            index_spec(table, right, seq![right], false),
        ],
        primary: Seq::empty(),
    }
}

/// The tables after one edge placement: a many-to-many edge sets its join
/// table; another edge adds a nullable column (and an index, unique for a
/// one-to-one edge) to the table it is placed on, when that table exists. A
/// column name already taken there is an error.
pub open spec fn place_step(tables: Seq<(Seq<char>, TableModel)>, p: PlacementModel) -> Result<
    Seq<(Seq<char>, TableModel)>,
    Seq<char>,
> {
    match p.remote {
        Some(right) => Ok(msorted_put(tables, p.table, join_table(p.table, p.local, right))),
        None => {
            let i = mkey_index(tables, p.table);
            if i < tables.len() {
                let t = tables[i].1;
                if mhas_key(t.columns, p.local) {
                    Err(
                        "Edge "@ + p.entity + "."@ + p.edge + " needs column \""@ + p.local
                            + "\" on "@ + p.table + ", but a field already claims it."@,
                    )
                } else {
                    Ok(
                        tables.update(
                            i,
                            (
                                tables[i].0,
                                TableModel {
                                    columns: t.columns.push(
                                        (
                                            p.local,
                                            column_spec(p.local, bigint_unsigned(), true, false),
                                        ),
                                    ),
                                    indexes: t.indexes.push(
                                        index_spec(
                                            p.table,
                                            p.local,
                                            seq![p.local],
                                            p.relation is OneToOne,
                                        ),
                                    ),
                                    ..t
                                },
                            ),
                        ),
                    )
                }
            } else {
                Ok(tables)
            }
        },
    }
}

/// The tables after the first `n` placements, or the first error.
pub open spec fn placed(
    tables: Seq<(Seq<char>, TableModel)>,
    ps: Seq<PlacementModel>,
    n: nat,
) -> Result<Seq<(Seq<char>, TableModel)>, Seq<char>>
    decreases n,
{
    if n == 0 {
        Ok(tables)
    } else {
        match placed(tables, ps, (n - 1) as nat) {
            Err(m) => Err(m),
            Ok(t) => place_step(t, ps[n - 1]),
        }
    }
}

proof fn lemma_placed_error(
    tables: Seq<(Seq<char>, TableModel)>,
    ps: Seq<PlacementModel>,
    k: nat,
    n: nat,
)
    requires
        k <= n,
        placed(tables, ps, k) is Err,
    ensures
        placed(tables, ps, n) == placed(tables, ps, k),
    decreases n,
{
    if k < n {
        lemma_placed_error(tables, ps, k, (n - 1) as nat);
    }
}

fn join_table_of(table: &str, left: &str, right: &str) -> (t: Table)
    ensures
        t@ == join_table(table@, left@, right@),
{
    let mut columns: Vec<(String, String)> = Vec::new();
    columns.push((String::from_str(left), column(left, "BIGINT UNSIGNED", false, false)));
    if !str_eq(left, right) {
        columns.push((String::from_str(right), column(right, "BIGINT UNSIGNED", false, false)));
    }
    let mut indexes: Vec<(String, String)> = Vec::new();
    indexes.push(index(table, "pair", &string_vec2(left, right), true));
    indexes.push(index(table, right, &string_vec1(right), false));
    let t = Table {
        name: String::from_str(table),
        columns,
        indexes,
        primary: String::new(),
    };
    assert(t@.columns =~= join_table(table@, left@, right@).columns);
    assert(t@.indexes =~= join_table(table@, left@, right@).indexes);
    assert(t@.primary =~= join_table(table@, left@, right@).primary);
    t
}

fn place(tables: &mut Vec<(String, Table)>, p: &Placement) -> (r: Result<(), String>)
    ensures
        match r {
            Ok(_) => place_step(entries_view(old(tables)@), p@) == Ok::<
                Seq<(Seq<char>, TableModel)>,
                Seq<char>,
            >(entries_view(final(tables)@)),
            Err(m) => place_step(entries_view(old(tables)@), p@) == Err::<
                Seq<(Seq<char>, TableModel)>,
                Seq<char>,
            >(m@),
        },
{
    let ghost before = entries_view(tables@);
    match &p.remote {
        Some(right) => {
            let t = join_table_of(p.table.as_str(), p.local.as_str(), right.as_str());
            sorted_put_entry(tables, String::from_str(p.table.as_str()), t);
            Ok(())
        },
        None => match mposition(tables, p.table.as_str()) {
            None => Ok(()),
            Some(i) => {
                let (key, mut t) = tables.remove(i);
                let ghost old_t = t@;
                assert(old_t == before[i as int].1);
                if mcontains_key(&t.columns, p.local.as_str()) {
                    let mut m = String::from_str("Edge ");
                    append_str(&mut m, p.entity.as_str());
                    append_str(&mut m, ".");
                    append_str(&mut m, p.edge.as_str());
                    append_str(&mut m, " needs column \"");
                    append_str(&mut m, p.local.as_str());
                    append_str(&mut m, "\" on ");
                    append_str(&mut m, p.table.as_str());
                    append_str(&mut m, ", but a field already claims it.");
                    assert(m@ =~= "Edge "@ + p@.entity + "."@ + p@.edge + " needs column \""@
                        + p@.local + "\" on "@ + p@.table + ", but a field already claims it."@);
                    return Err(m);
                }
                let one_to_one = match p.relation {
                    Relation::OneToOne => true,
                    _ => false,
                };
                let c = column(p.local.as_str(), "BIGINT UNSIGNED", true, false);
                t.columns.push((String::from_str(p.local.as_str()), c));
                let ix = index(
                    p.table.as_str(),
                    p.local.as_str(),
                    &string_vec1(p.local.as_str()),
                    one_to_one,
                );
                t.indexes.push(ix);
                let ghost new_t = t@;
                assert(new_t.columns =~= old_t.columns.push(
                    (p@.local, column_spec(p@.local, bigint_unsigned(), true, false)),
                ));
                assert(new_t.indexes =~= old_t.indexes.push(
                    index_spec(p@.table, p@.local, seq![p@.local], p@.relation is OneToOne),
                ));
                tables.insert(i, (key, t));
                assert(entries_view(tables@) =~= before.update(
                    i as int,
                    (before[i as int].0, new_t),
                ));
                Ok(())
            },
        },
    }
}

/// The tables with every edge placement applied in order, or the first error.
pub fn place_all(tables: &mut Vec<(String, Table)>, placements: &Vec<Placement>) -> (r: Result<
    (),
    String,
>)
    ensures
        match r {
            Ok(_) => placed(
                entries_view(old(tables)@),
                placement_views(placements@),
                placements@.len(),
            ) == Ok::<Seq<(Seq<char>, TableModel)>, Seq<char>>(entries_view(final(tables)@)),
            Err(m) => placed(
                entries_view(old(tables)@),
                placement_views(placements@),
                placements@.len(),
            ) == Err::<Seq<(Seq<char>, TableModel)>, Seq<char>>(m@),
        },
{
    let ghost start = entries_view(tables@);
    let ghost ps = placement_views(placements@);
    let n = placements.len();
    let mut i: usize = 0;
    while i < n
        invariant
            i <= n == placements@.len(),
            ps == placement_views(placements@),
            start == entries_view(old(tables)@),
            placed(start, ps, i as nat) == Ok::<Seq<(Seq<char>, TableModel)>, Seq<char>>(
                entries_view(tables@),
            ),
        decreases n - i,
    {
        assert(ps[i as int] == placements@[i as int]@);
        let ghost cur = entries_view(tables@);
        match place(tables, &placements[i]) {
            Ok(_) => {},
            Err(m) => {
                proof {
                    assert(place_step(cur, ps[i as int]) == Err::<
                        Seq<(Seq<char>, TableModel)>,
                        Seq<char>,
                    >(m@));
                    assert(placed(start, ps, (i + 1) as nat) == Err::<
                        Seq<(Seq<char>, TableModel)>,
                        Seq<char>,
                    >(m@));
                    lemma_placed_error(start, ps, (i + 1) as nat, n as nat);
                }
                return Err(m);
            },
        }
        i = i + 1;
    }
    Ok(())
}


// ---------------------------------------------------------------------------
// The manifest
// ---------------------------------------------------------------------------

/// `'Field' => 'field_column'` for the first `n` fields, separated by `, `.
pub open spec fn field_columns(fields: Seq<(String, FieldDefinition)>, n: nat) -> Seq<char>
    decreases n,
{
    if n == 0 {
        Seq::empty()
    } else if n == 1 {
        quoted(fields[0].1.name@) + " => "@ + quoted(snake_spec(fields[0].1.name@))
    } else {
        field_columns(fields, (n - 1) as nat) + ", "@ + quoted(fields[n - 1].1.name@) + " => "@
            + quoted(snake_spec(fields[n - 1].1.name@))
    }
}

/// The quoted name of the last of the first `n` fields that the given
/// timestamp manages, or `null`.
pub open spec fn managed_field(fields: Seq<(String, FieldDefinition)>, n: nat, created: bool) -> Seq<
    char,
>
    decreases n,
{
    if n == 0 {
        "null"@
    } else {
        let f = fields[n - 1].1;
        let hit = match f.managed {
            Some(Managed::Created) => created,
            Some(Managed::Modified) => !created,
            None => false,
        };
        if hit {
            quoted(f.name@)
        } else {
            managed_field(fields, (n - 1) as nat, created)
        }
    }
}

/// An account entity's `AccountFields` constructor call.
pub open spec fn account_fields_spec(e: EntityDefinition) -> Seq<char> {
    let fs = e.fields.entries@;
    "new AccountFields(\n            "@ + quoted(e.name@) + ",\n            "@ + managed_field(
        fs,
        fs.len(),
        true,
    ) + ",\n            "@ + managed_field(fs, fs.len(), false) + ",\n        )"@
}

/// The per-entity sections of the manifest, each keyed by entity name.
pub struct Sections {
    pub tables: Vec<(String, String)>,
    pub columns: Vec<(String, String)>,
    pub taxonomies: Vec<(String, String)>,
    pub accounts: Vec<(String, String)>,
    pub posts: Vec<(String, String)>,
}

#[verifier::ext_equal]
pub struct SectionsModel {
    pub tables: Seq<(Seq<char>, Seq<char>)>,
    pub columns: Seq<(Seq<char>, Seq<char>)>,
    pub taxonomies: Seq<(Seq<char>, Seq<char>)>,
    pub accounts: Seq<(Seq<char>, Seq<char>)>,
    pub posts: Seq<(Seq<char>, Seq<char>)>,
}

impl View for Sections {
    type V = SectionsModel;

    open spec fn view(&self) -> SectionsModel {
        SectionsModel {
            tables: entries_view(self.tables@),
            columns: entries_view(self.columns@),
            taxonomies: entries_view(self.taxonomies@),
            accounts: entries_view(self.accounts@),
            posts: entries_view(self.posts@),
        }
    }
}

/// The sections after one more entity: its table (when the tables hold one
/// under its table name), its field columns (when it has fields), and its
/// taxonomy, account and post entries when it is one.
pub open spec fn section_step(
    schema: Schema,
    tables: Seq<(Seq<char>, TableModel)>,
    e: EntityDefinition,
    sec: SectionsModel,
) -> SectionsModel {
    let en = e.name@;
    let fs = e.fields.entries@;
    SectionsModel {
        tables: match mlookup(tables, e.storage.table@) {
            Some(t) => msorted_put(sec.tables, en, table_expr_spec(t)),
            None => sec.tables,
        },
        columns: if fs.len() > 0 {
            msorted_put(sec.columns, en, "["@ + field_columns(fs, fs.len()) + "]"@)
        } else {
            sec.columns
        },
        taxonomies: if is_taxonomy(e) {
            msorted_put(sec.taxonomies, en, quoted(handle_text(e)))
        } else {
            sec.taxonomies
        },
        accounts: if is_account(e) {
            msorted_put(sec.accounts, en, account_fields_spec(e))
        } else {
            sec.accounts
        },
        posts: if is_linked(schema, e) {
            msorted_put(sec.posts, en, quoted(handle_text(e)))
        } else {
            sec.posts
        },
    }
}

pub open spec fn sections_of(schema: Schema, tables: Seq<(Seq<char>, TableModel)>, n: nat) -> SectionsModel
    decreases n,
{
    if n == 0 {
        SectionsModel {
            tables: Seq::empty(),
            columns: Seq::empty(),
            taxonomies: Seq::empty(),
            accounts: Seq::empty(),
            posts: Seq::empty(),
        }
    } else {
        section_step(
            schema,
            tables,
            schema.entities.entries@[n - 1].1,
            sections_of(schema, tables, (n - 1) as nat),
        )
    }
}

fn field_columns_of(e: &EntityDefinition) -> (r: String)
    ensures
        r@ == "["@ + field_columns(e.fields.entries@, e.fields.entries@.len()) + "]"@,
{
    let fs = &e.fields.entries;
    let n = fs.len();
    let mut r = String::from_str("[");
    let mut i: usize = 0;
    while i < n
        invariant
            i <= n == fs@.len(),
            fs == e.fields.entries,
            r@ == "["@ + field_columns(fs@, i as nat),
        decreases n - i,
    {
        if i > 0 {
            append_str(&mut r, ", ");
        }
        push_quoted(&mut r, fs[i].1.name.as_str());
        append_str(&mut r, " => ");
        let sn = snake(fs[i].1.name.as_str());
        push_quoted(&mut r, sn.as_str());
        i = i + 1;
        assert(r@ =~= "["@ + field_columns(fs@, i as nat));
    }
    append_str(&mut r, "]");
    r
}

fn account_fields(e: &EntityDefinition) -> (r: String)
    ensures
        r@ == account_fields_spec(*e),
{
    let fs = &e.fields.entries;
    let n = fs.len();
    let mut created = String::from_str("null");
    let mut modified = String::from_str("null");
    let mut i: usize = 0;
    while i < n
        invariant
            i <= n == fs@.len(),
            fs == e.fields.entries,
            created@ == managed_field(fs@, i as nat, true),
            modified@ == managed_field(fs@, i as nat, false),
        decreases n - i,
    {
        match &fs[i].1.managed {
            Some(Managed::Created) => {
                created = q(fs[i].1.name.as_str());
            },
            Some(Managed::Modified) => {
                modified = q(fs[i].1.name.as_str());
            },
            None => {},
        }
        i = i + 1;
    }
    let mut r = String::from_str("new AccountFields(\n            ");
    push_quoted(&mut r, e.name.as_str());
    append_str(&mut r, ",\n            ");
    append_str(&mut r, created.as_str());
    append_str(&mut r, ",\n            ");
    append_str(&mut r, modified.as_str());
    append_str(&mut r, ",\n        )");
    assert(r@ =~= account_fields_spec(*e));
    r
}

fn quoted_handle(e: &EntityDefinition) -> (r: String)
    ensures
        r@ == quoted(handle_text(*e)),
{
    match &e.storage.handle {
        Some(h) => q(h.as_str()),
        None => {
            proof {
                reveal_strlit("");
            }
            q("")
        },
    }
}

/// The per-entity sections of the manifest over the final tables.
pub fn sections(schema: &Schema, tables: &Vec<(String, Table)>) -> (r: Sections)
    ensures
        r@ == sections_of(*schema, entries_view(tables@), schema.entities.entries@.len()),
{
    let mut sec = Sections {
        tables: Vec::new(),
        columns: Vec::new(),
        taxonomies: Vec::new(),
        accounts: Vec::new(),
        posts: Vec::new(),
    };
    let ghost tv = entries_view(tables@);
    assert(sec@ =~= sections_of(*schema, tv, 0));
    let ents = &schema.entities.entries;
    let n = ents.len();
    let mut i: usize = 0;
    while i < n
        invariant
            i <= n == ents@.len(),
            ents == schema.entities.entries,
            tv == entries_view(tables@),
            sec@ == sections_of(*schema, tv, i as nat),
        decreases n - i,
    {
        let e = &ents[i].1;
        let ghost before = sec@;
        if linked(schema, e) {
            sorted_put_entry(&mut sec.posts, String::from_str(e.name.as_str()), quoted_handle(e));
        }
        match mposition(tables, e.storage.table.as_str()) {
            Some(k) => {
                proof {
                    lemma_mkey_index_bounds(tv, e.storage.table@);
                }
                let x = table_expr(&tables[k].1);
                sorted_put_entry(&mut sec.tables, String::from_str(e.name.as_str()), x);
            },
            None => {},
        }
        if e.fields.entries.len() > 0 {
            sorted_put_entry(
                &mut sec.columns,
                String::from_str(e.name.as_str()),
                field_columns_of(e),
            );
        }
        if taxonomy(e) {
            sorted_put_entry(
                &mut sec.taxonomies,
                String::from_str(e.name.as_str()),
                quoted_handle(e),
            );
        }
        if account(e) {
            sorted_put_entry(&mut sec.accounts, String::from_str(e.name.as_str()), account_fields(e));
        }
        assert(sec@ =~= section_step(*schema, tv, *e, before));
        i = i + 1;
    }
    sec
}


/// The tables of the entities, by position.
pub open spec fn claimed(schema: Schema) -> Seq<Seq<char>> {
    Seq::new(schema.entities.entries@.len(), |i: int| schema.entities.entries@[i].1.storage.table@)
}

/// The first `n` tables that no entity claims, as `TableSchema` calls.
pub open spec fn join_entries(
    tables: Seq<(Seq<char>, TableModel)>,
    claimed: Seq<Seq<char>>,
    n: nat,
) -> Seq<(Seq<char>, Seq<char>)>
    decreases n,
{
    if n == 0 {
        Seq::empty()
    } else {
        let rest = join_entries(tables, claimed, (n - 1) as nat);
        let (name, t) = tables[n - 1];
        if claimed.contains(name) {
            rest
        } else {
            rest.push((name, table_expr_spec(t)))
        }
    }
}

/// An edge placement as an `EdgePlacement` constructor call.
pub open spec fn edge_placement_spec(p: PlacementModel) -> Seq<char> {
    "new EdgePlacement(\n            "@ + quoted(p.entity) + ",\n            "@ + quoted(p.edge)
        + ",\n            "@ + quoted(p.target) + ",\n            RelationKind::"@
        + relation_name(p.relation) + ",\n            "@ + quoted(p.table) + ",\n            "@
        + quoted(p.local) + ",\n            "@ + (match p.remote {
        Some(r) => quoted(r),
        None => "null"@,
    }) + ",\n            "@ + quoted(p.target_table) + ",\n        )"@
}

/// The first `n` edge placements keyed `Entity.edge`.
pub open spec fn placement_entries(ps: Seq<PlacementModel>, n: nat) -> Seq<(Seq<char>, Seq<char>)>
    decreases n,
{
    if n == 0 {
        Seq::empty()
    } else {
        placement_entries(ps, (n - 1) as nat).push(
            (ps[n - 1].entity + "."@ + ps[n - 1].edge, edge_placement_spec(ps[n - 1])),
        )
    }
}

/// What the manifest opens with.
pub open spec fn manifest_prelude() -> Seq<char> {
    "namespace Eleph\\WordPress\\Manifest;\n\nuse Eleph\\WordPress\\Account\\AccountFields;\nuse Eleph\\WordPress\\Sql\\Column;\nuse Eleph\\WordPress\\Sql\\EdgePlacement;\nuse Eleph\\WordPress\\Sql\\Index;\nuse Eleph\\WordPress\\Sql\\TableSchema;\nuse Eleph\\WordPress\\Taxonomy\\TaxonomyPlacement;\nuse Eleph\\Runtime\\Storage\\RelationKind;\n\n"@
}

/// One named argument of the manifest: its entries as a PHP array.
pub open spec fn section(name: Seq<char>, entries: Seq<(Seq<char>, Seq<char>)>) -> Seq<char> {
    "    "@ + name + ": [\n"@ + pairs_spec(entries, 8) + "\n    ],\n"@
}

/// The manifest from the placed tables and the layout's placements.
pub open spec fn manifest_spec(
    schema: Schema,
    header: Seq<char>,
    tables: Seq<(Seq<char>, TableModel)>,
    layout: LayoutModel,
) -> Seq<char> {
    let sec = sections_of(schema, tables, schema.entities.entries@.len());
    manifest_prelude() + header + "return new StorageManifest(\n"@ + section("tables"@, sec.tables)
        + section(
        "placements"@,
        placement_entries(layout.placements, layout.placements.len()),
    ) + section("columns"@, sec.columns) + section(
        "joinTables"@,
        join_entries(tables, claimed(schema), tables.len()),
    ) + section("taxonomies"@, sec.taxonomies) + section(
        "taxonomyPlacements"@,
        layout.taxonomy_placements,
    ) + section("accounts"@, sec.accounts) + section("posts"@, sec.posts) + ");\n"@
}

/// The storage manifest of a schema, with `header` before its `return`, or
/// the first error met while laying out the entities and placing the edges.
#[verifier::opaque]
pub open spec fn storage_spec(schema: Schema, header: Seq<char>) -> Result<Seq<char>, Seq<char>> {
    match layout_of(schema, schema.entities.entries@.len()) {
        Err(m) => Err(m),
        Ok(layout) => match placed(layout.tables, layout.placements, layout.placements.len()) {
            Err(m) => Err(m),
            Ok(tables) => Ok(manifest_spec(schema, header, tables, layout)),
        },
    }
}

fn push_section(out: &mut String, name: &str, entries: &Vec<(String, String)>)
    ensures
        final(out)@ == old(out)@ + section(name@, entries_view(entries@)),
{
    append_str(out, "    ");
    append_str(out, name);
    append_str(out, ": [\n");
    let p = pairs(entries, 8);
    append_str(out, p.as_str());
    append_str(out, "\n    ],\n");
    assert(final(out)@ =~= old(out)@ + section(name@, entries_view(entries@)));
}

fn edge_placement(p: &Placement) -> (r: String)
    ensures
        r@ == edge_placement_spec(p@),
{
    let mut r = String::from_str("new EdgePlacement(\n            ");
    push_quoted(&mut r, p.entity.as_str());
    append_str(&mut r, ",\n            ");
    push_quoted(&mut r, p.edge.as_str());
    append_str(&mut r, ",\n            ");
    push_quoted(&mut r, p.target.as_str());
    append_str(&mut r, ",\n            RelationKind::");
    match p.relation {
        Relation::OneToOne => append_str(&mut r, "OneToOne"),
        Relation::ManyToOne => append_str(&mut r, "ManyToOne"),
        Relation::OneToMany => append_str(&mut r, "OneToMany"),
        Relation::ManyToMany => append_str(&mut r, "ManyToMany"),
    }
    append_str(&mut r, ",\n            ");
    push_quoted(&mut r, p.table.as_str());
    append_str(&mut r, ",\n            ");
    push_quoted(&mut r, p.local.as_str());
    append_str(&mut r, ",\n            ");
    match &p.remote {
        Some(x) => push_quoted(&mut r, x.as_str()),
        None => append_str(&mut r, "null"),
    }
    append_str(&mut r, ",\n            ");
    push_quoted(&mut r, p.target_table.as_str());
    append_str(&mut r, ",\n        )");
    assert(r@ =~= edge_placement_spec(p@));
    r
}

fn claimed_by_entity(schema: &Schema, name: &str) -> (r: bool)
    ensures
        r == claimed(*schema).contains(name@),
{
    let ents = &schema.entities.entries;
    let n = ents.len();
    let mut i: usize = 0;
    while i < n
        invariant
            i <= n == ents@.len(),
            ents == schema.entities.entries,
            forall|j: int| 0 <= j < i ==> claimed(*schema)[j] != name@,
        decreases n - i,
    {
        if str_eq(ents[i].1.storage.table.as_str(), name) {
            assert(claimed(*schema)[i as int] == name@);
            return true;
        }
        i = i + 1;
    }
    false
}

/// The storage manifest: the prelude, `header`, and the `StorageManifest`
/// constructor call with the tables, edge placements, field columns, join
/// tables, taxonomies, taxonomy placements, accounts and posts.
pub fn generate(schema: &Schema, header: &str) -> (r: Result<String, String>)
    ensures
        text_result(r) == storage_spec(*schema, header@),
{
    reveal(storage_spec);
    let mut layout = match lay_out(schema) {
        Ok(l) => l,
        Err(m) => {
            return Err(m);
        },
    };
    let ghost laid = layout@;
    match place_all(&mut layout.tables, &layout.placements) {
        Ok(_) => {},
        Err(m) => {
            return Err(m);
        },
    }
    let ghost tv = entries_view(layout.tables@);
    let sec = sections(schema, &layout.tables);
    let mut joins: Vec<(String, String)> = Vec::new();
    let nt = layout.tables.len();
    let mut i: usize = 0;
    while i < nt
        invariant
            i <= nt == layout.tables@.len(),
            tv == entries_view(layout.tables@),
            entries_view(joins@) == join_entries(tv, claimed(*schema), i as nat),
        decreases nt - i,
    {
        let name = layout.tables[i].0.as_str();
        if !claimed_by_entity(schema, name) {
            let x = table_expr(&layout.tables[i].1);
            joins.push((String::from_str(name), x));
        }
        i = i + 1;
        assert(entries_view(joins@) =~= join_entries(tv, claimed(*schema), i as nat));
    }
    let ps = &layout.placements;
    let np = ps.len();
    let mut placements: Vec<(String, String)> = Vec::new();
    let mut j: usize = 0;
    while j < np
        invariant
            j <= np == ps@.len(),
            entries_view(placements@) == placement_entries(placement_views(ps@), j as nat),
        decreases np - j,
    {
        let mut key = String::from_str(ps[j].entity.as_str());
        append_str(&mut key, ".");
        append_str(&mut key, ps[j].edge.as_str());
        placements.push((key, edge_placement(&ps[j])));
        j = j + 1;
        assert(entries_view(placements@) =~= placement_entries(
            placement_views(ps@),
            j as nat,
        ));
    }
    let mut body = String::from_str(
        "namespace Eleph\\WordPress\\Manifest;\n\nuse Eleph\\WordPress\\Account\\AccountFields;\nuse Eleph\\WordPress\\Sql\\Column;\nuse Eleph\\WordPress\\Sql\\EdgePlacement;\nuse Eleph\\WordPress\\Sql\\Index;\nuse Eleph\\WordPress\\Sql\\TableSchema;\nuse Eleph\\WordPress\\Taxonomy\\TaxonomyPlacement;\nuse Eleph\\Runtime\\Storage\\RelationKind;\n\n",
    );
    append_str(&mut body, header);
    append_str(&mut body, "return new StorageManifest(\n");
    push_section(&mut body, "tables", &sec.tables);
    push_section(&mut body, "placements", &placements);
    push_section(&mut body, "columns", &sec.columns);
    push_section(&mut body, "joinTables", &joins);
    push_section(&mut body, "taxonomies", &sec.taxonomies);
    push_section(&mut body, "taxonomyPlacements", &layout.taxonomy_placements);
    push_section(&mut body, "accounts", &sec.accounts);
    push_section(&mut body, "posts", &sec.posts);
    append_str(&mut body, ");\n");
    assert(body@ =~= manifest_spec(*schema, header@, tv, laid));
    Ok(body)
}


// ---------------------------------------------------------------------------
// Every table declares each column once
// ---------------------------------------------------------------------------

/// No two entries share a key.
pub open spec fn distinct_keys(m: Seq<(Seq<char>, Seq<char>)>) -> bool {
    forall|i: int, j: int| 0 <= i < j < m.len() ==> (#[trigger] m[i]).0 != (#[trigger] m[j]).0
}

pub open spec fn columns_distinct(t: TableModel) -> bool {
    distinct_keys(t.columns)
}

pub open spec fn all_columns_distinct(tables: Seq<(Seq<char>, TableModel)>) -> bool {
    forall|i: int| 0 <= i < tables.len() ==> columns_distinct(#[trigger] tables[i].1)
}

proof fn lemma_push_new_key(m: Seq<(Seq<char>, Seq<char>)>, k: Seq<char>, v: Seq<char>)
    requires
        distinct_keys(m),
        !mhas_key(m, k),
    ensures
        distinct_keys(m.push((k, v))),
{
    lemma_mkey_index_bounds(m, k);
    let r = m.push((k, v));
    assert forall|i: int, j: int| 0 <= i < j < r.len() implies (#[trigger] r[i]).0 != (
    #[trigger] r[j]).0 by {
        assert(r[i] == m[i]);
        if j < m.len() {
            assert(r[j] == m[j]);
        }
    }
}

proof fn lemma_base_table_distinct(schema: Schema, e: EntityDefinition)
    ensures
        columns_distinct(base_table(schema, e)),
{
    reveal_strlit("id");
    reveal_strlit("wp_post_id");
    assert("id"@ != "wp_post_id"@) by {
        assert("id"@.len() != "wp_post_id"@.len());
    }
}

proof fn lemma_fields_table_distinct(schema: Schema, e: EntityDefinition, n: nat)
    ensures
        fields_table(schema, e, n) matches Ok(t) ==> columns_distinct(t),
    decreases n,
{
    if n == 0 {
        lemma_base_table_distinct(schema, e);
    } else {
        lemma_fields_table_distinct(schema, e, (n - 1) as nat);
        match fields_table(schema, e, (n - 1) as nat) {
            Ok(t) => {
                let f = e.fields.entries@[n - 1].1;
                let nm = snake_spec(f.name@);
                if !mhas_key(t.columns, nm) {
                    match column_type_spec(schema, f) {
                        Ok(ty) => lemma_push_new_key(
                            t.columns,
                            nm,
                            column_spec(nm, ty, f.nullable, false),
                        ),
                        Err(_) => {},
                    }
                }
            },
            Err(_) => {},
        }
    }
}

proof fn lemma_edges_keep_tables(schema: Schema, e: EntityDefinition, st: LayoutModel, n: nat)
    ensures
        edges_layout(schema, e, st, n).tables == st.tables,
    decreases n,
{
    if n > 0 {
        lemma_edges_keep_tables(schema, e, st, (n - 1) as nat);
    }
}

proof fn lemma_layout_distinct(schema: Schema, n: nat)
    ensures
        layout_of(schema, n) matches Ok(l) ==> all_columns_distinct(l.tables),
    decreases n,
{
    if n > 0 {
        lemma_layout_distinct(schema, (n - 1) as nat);
        match layout_of(schema, (n - 1) as nat) {
            Ok(st) => {
                let e = schema.entities.entries@[n - 1].1;
                lemma_fields_table_distinct(schema, e, e.fields.entries@.len());
                let p = |t: TableModel| columns_distinct(t);
                let with_table = if !is_taxonomy(e) && !is_account(e) {
                    if setting_spec(schema, e, "linkPosts"@) && e.storage.handle is None {
                        Err(Seq::<char>::empty())
                    } else {
                        match fields_table(schema, e, e.fields.entries@.len()) {
                            Err(m) => Err(m),
                            Ok(t) => {
                                lemma_msorted_put_values(st.tables, e.storage.table@, t, p);
                                Ok(
                                    LayoutModel {
                                        tables: msorted_put(st.tables, e.storage.table@, t),
                                        ..st
                                    },
                                )
                            },
                        }
                    }
                } else {
                    Ok(st)
                };
                match with_table {
                    Ok(s) => {
                        lemma_edges_keep_tables(schema, e, s, e.edges.entries@.len());
                    },
                    Err(_) => {},
                }
            },
            Err(_) => {},
        }
    }
}

proof fn lemma_place_distinct(tables: Seq<(Seq<char>, TableModel)>, p: PlacementModel)
    requires
        all_columns_distinct(tables),
    ensures
        place_step(tables, p) matches Ok(ts) ==> all_columns_distinct(ts),
{
    match p.remote {
        Some(right) => {
            let jt = join_table(p.table, p.local, right);
            let pred = |t: TableModel| columns_distinct(t);
            assert(columns_distinct(jt));
            assert(pred(jt));
            assert forall|i: int| 0 <= i < tables.len() implies pred(#[trigger] tables[i].1) by {
                assert(columns_distinct(tables[i].1));
            }
            lemma_msorted_put_values(tables, p.table, jt, pred);
        },
        None => {
            lemma_mkey_index_bounds(tables, p.table);
            let i = mkey_index(tables, p.table);
            if i < tables.len() {
                let t = tables[i].1;
                assert(columns_distinct(t));
                if !mhas_key(t.columns, p.local) {
                    lemma_push_new_key(
                        t.columns,
                        p.local,
                        column_spec(p.local, bigint_unsigned(), true, false),
                    );
                    match place_step(tables, p) {
                        Ok(ts) => {
                            assert forall|j: int| 0 <= j < ts.len() implies columns_distinct(
                                #[trigger] ts[j].1,
                            ) by {
                                if j != i {
                                    assert(ts[j] == tables[j]);
                                }
                            }
                        },
                        Err(_) => {},
                    }
                }
            }
        },
    }
}

proof fn lemma_placed_distinct(tables: Seq<(Seq<char>, TableModel)>, ps: Seq<PlacementModel>, n: nat)
    requires
        all_columns_distinct(tables),
    ensures
        placed(tables, ps, n) matches Ok(ts) ==> all_columns_distinct(ts),
    decreases n,
{
    if n > 0 {
        lemma_placed_distinct(tables, ps, (n - 1) as nat);
        match placed(tables, ps, (n - 1) as nat) {
            Ok(t) => lemma_place_distinct(t, ps[n - 1]),
            Err(_) => {},
        }
    }
}

/// Law: when the manifest is written, no table in it declares a column
/// twice: fields that map to one column, or an edge column that a field
/// already claims, are refused instead.
pub proof fn law_tables_declare_each_column_once(schema: Schema)
    ensures
        layout_of(schema, schema.entities.entries@.len()) matches Ok(l) ==> (placed(
            l.tables,
            l.placements,
            l.placements.len(),
        ) matches Ok(ts) ==> all_columns_distinct(ts)),
{
    lemma_layout_distinct(schema, schema.entities.entries@.len());
    match layout_of(schema, schema.entities.entries@.len()) {
        Ok(l) => lemma_placed_distinct(l.tables, l.placements, l.placements.len()),
        Err(_) => {},
    }
}

/// Law: an index name never exceeds 64 characters, the identifier limit of
/// MySQL.
pub proof fn law_index_names_fit(table: Seq<char>, key: Seq<char>, unique: bool)
    ensures
        index_name(table, key, unique).len() <= 64,
{
}


proof fn lemma_fields_table_prefix(schema: Schema, e: EntityDefinition, n: nat)
    ensures
        fields_table(schema, e, n) matches Ok(t) ==> {
            let b = base_table(schema, e).columns;
            &&& t.name == e.storage.table@
            &&& t.columns.len() >= b.len()
            &&& forall|i: int| 0 <= i < b.len() ==> #[trigger] t.columns[i] == b[i]
        },
    decreases n,
{
    if n > 0 {
        lemma_fields_table_prefix(schema, e, (n - 1) as nat);
        match fields_table(schema, e, (n - 1) as nat) {
            Ok(t) => {
                let b = base_table(schema, e).columns;
                match add_field_spec(schema, e, e.fields.entries@[n - 1].1, t) {
                    Ok(t2) => {
                        assert forall|i: int| 0 <= i < b.len() implies #[trigger] t2.columns[i]
                            == b[i] by {
                            assert(t2.columns[i] == t.columns[i]);
                        }
                    },
                    Err(_) => {},
                }
            },
            Err(_) => {},
        }
    }
}

/// Law: every entity table starts with its auto-increment `id` column, and a
/// linked entity's table has the nullable `wp_post_id` column next.
pub proof fn law_entity_tables_start_with_keys(schema: Schema, e: EntityDefinition)
    ensures
        fields_table(schema, e, e.fields.entries@.len()) matches Ok(t) ==> {
            &&& t.columns[0] == ("id"@, column_spec("id"@, bigint_unsigned(), false, true))
            &&& t.primary == "id"@
            &&& is_linked(schema, e) ==> t.columns[1] == (
                "wp_post_id"@,
                column_spec("wp_post_id"@, bigint_unsigned(), true, false),
            )
        },
{
    lemma_fields_table_prefix(schema, e, e.fields.entries@.len());
    lemma_fields_table_primary(schema, e, e.fields.entries@.len());
}

proof fn lemma_fields_table_primary(schema: Schema, e: EntityDefinition, n: nat)
    ensures
        fields_table(schema, e, n) matches Ok(t) ==> t.primary == "id"@,
    decreases n,
{
    if n > 0 {
        lemma_fields_table_primary(schema, e, (n - 1) as nat);
    }
}

/// Law: the manifest's sections keyed by entity name list each name once,
/// in ascending order.
pub proof fn law_sections_sorted(schema: Schema, tables: Seq<(Seq<char>, TableModel)>, n: nat)
    ensures
        crate::assoc::sorted_keys(sections_of(schema, tables, n).tables),
        crate::assoc::sorted_keys(sections_of(schema, tables, n).columns),
        crate::assoc::sorted_keys(sections_of(schema, tables, n).taxonomies),
        crate::assoc::sorted_keys(sections_of(schema, tables, n).accounts),
        crate::assoc::sorted_keys(sections_of(schema, tables, n).posts),
    decreases n,
{
    if n > 0 {
        law_sections_sorted(schema, tables, (n - 1) as nat);
        let sec = sections_of(schema, tables, (n - 1) as nat);
        let e = schema.entities.entries@[n - 1].1;
        let en = e.name@;
        let fs = e.fields.entries@;
        match mlookup(tables, e.storage.table@) {
            Some(t) => crate::assoc::law_sorted_put_keeps_order(sec.tables, en, table_expr_spec(t)),
            None => {},
        }
        crate::assoc::law_sorted_put_keeps_order(
            sec.columns,
            en,
            "["@ + field_columns(fs, fs.len()) + "]"@,
        );
        crate::assoc::law_sorted_put_keeps_order(sec.taxonomies, en, quoted(handle_text(e)));
        crate::assoc::law_sorted_put_keeps_order(sec.accounts, en, account_fields_spec(e));
        crate::assoc::law_sorted_put_keeps_order(sec.posts, en, quoted(handle_text(e)));
    }
}


// ---------------------------------------------------------------------------
// Law of the edge placements
// ---------------------------------------------------------------------------

/// Whether the edge's inverse is declared unique.
pub open spec fn inverse_unique(edge: EdgeDefinition) -> bool {
    match edge.inverse {
        Some(i) => i.unique,
        None => false,
    }
}

/// `a` begins with the placements of `b`.
pub open spec fn extends_placements(a: Seq<PlacementModel>, b: Seq<PlacementModel>) -> bool {
    b.len() <= a.len() && forall|k: int| 0 <= k < b.len() ==> #[trigger] a[k] == b[k]
}

proof fn lemma_edges_extend(schema: Schema, e: EntityDefinition, st: LayoutModel, m: nat, n: nat)
    requires
        m <= n,
    ensures
        extends_placements(
            edges_layout(schema, e, st, n).placements,
            edges_layout(schema, e, st, m).placements,
        ),
    decreases n,
{
    if m < n {
        lemma_edges_extend(schema, e, st, m, (n - 1) as nat);
        let a = edges_layout(schema, e, st, (n - 1) as nat).placements;
        let b = edges_layout(schema, e, st, n).placements;
        assert(b == a || b == a.push(b.last()));
        assert forall|k: int| 0 <= k < a.len() implies #[trigger] b[k] == a[k] by {}
    }
}

proof fn lemma_layout_extends(schema: Schema, m: nat, n: nat)
    requires
        m <= n,
        layout_of(schema, n) is Ok,
    ensures
        layout_of(schema, m) is Ok,
        extends_placements(
            layout_of(schema, n)->Ok_0.placements,
            layout_of(schema, m)->Ok_0.placements,
        ),
    decreases n,
{
    if m < n {
        assert(layout_of(schema, (n - 1) as nat) is Ok);
        lemma_layout_extends(schema, m, (n - 1) as nat);
        let pre = layout_of(schema, (n - 1) as nat)->Ok_0;
        let e = schema.entities.entries@[n - 1].1;
        let s = table_step(schema, e, pre)->Ok_0;
        assert(s.placements == pre.placements);
        lemma_edges_extend(schema, e, s, 0, e.edges.entries@.len());
    }
}

proof fn lemma_placement_entries(ps: Seq<PlacementModel>, n: nat)
    requires
        n <= ps.len(),
    ensures
        placement_entries(ps, n).len() == n,
        forall|k: int|
            0 <= k < n ==> #[trigger] placement_entries(ps, n)[k] == (
                ps[k].entity + "."@ + ps[k].edge,
                edge_placement_spec(ps[k]),
            ),
    decreases n,
{
    if n > 0 {
        lemma_placement_entries(ps, (n - 1) as nat);
    }
}

/// Law: in a schema whose storage manifest is written, every edge `ed` of an
/// entity `E` to an entity `T` that the schema has (unless it is a
/// many-to-many edge to a taxonomy, which is a taxonomy placement) is placed,
/// and the manifest lists it as `'E.ed' => new EdgePlacement(..)`. Its
/// relation is one-to-one for an edge to one with a unique inverse,
/// many-to-one for an edge to one otherwise, one-to-many for an edge to many
/// with a unique inverse and many-to-many otherwise. It is stored on `E`'s
/// table for an edge to one, on `T`'s table for a one-to-many edge, and in
/// the join table `<E's table>_<snake edge name>` for a many-to-many edge,
/// which alone has a remote column. When the edge is placed, a table of
/// that name that is not a join table gains a nullable `BIGINT UNSIGNED`
/// column for it, and an index on it that is unique exactly for a
/// one-to-one edge. The result is the edge's position among the placements.
pub proof fn law_edge_placement(schema: Schema, header: Seq<char>, i: int, j: int) -> (k: int)
    requires
        0 <= i < schema.entities.entries@.len(),
        0 <= j < schema.entities.entries@[i].1.edges.entries@.len(),
        storage_spec(schema, header) is Ok,
        lookup(
            schema.entities.entries@,
            schema.entities.entries@[i].1.edges.entries@[j].1.to@,
        ) is Some,
        !(relation_of(
            schema.entities.entries@[i].1.edges.entries@[j].1.cardinality is One,
            inverse_unique(schema.entities.entries@[i].1.edges.entries@[j].1),
        ) is ManyToMany && is_taxonomy(
            lookup(
                schema.entities.entries@,
                schema.entities.entries@[i].1.edges.entries@[j].1.to@,
            )->Some_0,
        )),
    ensures
        ({
            let e = schema.entities.entries@[i].1;
            let edge = e.edges.entries@[j].1;
            let target = lookup(schema.entities.entries@, edge.to@)->Some_0;
            let one = edge.cardinality is One;
            let u = inverse_unique(edge);
            let layout = layout_of(schema, schema.entities.entries@.len())->Ok_0;
            let ps = layout.placements;
            let p = ps[k];
            let before = placed(layout.tables, ps, k as nat)->Ok_0;
            let after = placed(layout.tables, ps, (k + 1) as nat)->Ok_0;
            let x = mkey_index(before, p.table);
            &&& storage_spec(schema, header) == Ok::<Seq<char>, Seq<char>>(
                manifest_spec(schema, header, placed(layout.tables, ps, ps.len())->Ok_0, layout),
            )
            &&& 0 <= k < ps.len()
            &&& p == placement_spec(e, edge, target, relation_of(one, u))
            &&& p.entity == e.name@ && p.edge == edge.name@ && p.target == target.name@
            &&& (p.relation is OneToOne) == (one && u)
            &&& (p.relation is ManyToOne) == (one && !u)
            &&& (p.relation is OneToMany) == (!one && u)
            &&& (p.relation is ManyToMany) == (!one && !u)
            &&& p.table == (if one {
                e.storage.table@
            } else if u {
                target.storage.table@
            } else {
                e.storage.table@ + "_"@ + snake_spec(edge.name@)
            })
            &&& (p.remote is Some) == (p.relation is ManyToMany)
            &&& placement_entries(ps, ps.len())[k] == (
                e.name@ + "."@ + edge.name@,
                edge_placement_spec(p),
            )
            &&& placed(layout.tables, ps, k as nat) is Ok
            &&& placed(layout.tables, ps, (k + 1) as nat) is Ok
            &&& (p.remote is None && mhas_key(before, p.table)) ==> {
                &&& after.len() == before.len()
                &&& after[x].0 == p.table
                &&& after[x].1.columns == before[x].1.columns.push(
                    (p.local, column_spec(p.local, bigint_unsigned(), true, false)),
                )
                &&& after[x].1.indexes == before[x].1.indexes.push(
                    index_spec(p.table, p.local, seq![p.local], p.relation is OneToOne),
                )
            }
        }),
{
    reveal(storage_spec);
    let n = schema.entities.entries@.len();
    let e = schema.entities.entries@[i].1;
    let edge = e.edges.entries@[j].1;
    let target = lookup(schema.entities.entries@, edge.to@)->Some_0;
    let one = edge.cardinality is One;
    let u = inverse_unique(edge);
    let rel = relation_of(one, u);
    assert(layout_of(schema, n) is Ok);
    let layout = layout_of(schema, n)->Ok_0;
    let ps = layout.placements;
    lemma_layout_extends(schema, (i + 1) as nat, n);
    let pre = layout_of(schema, i as nat)->Ok_0;
    assert(layout_of(schema, i as nat) is Ok);
    let s = table_step(schema, e, pre)->Ok_0;
    let ne = e.edges.entries@.len();
    let mid = edges_layout(schema, e, s, j as nat);
    let p = placement_spec(e, edge, target, rel);
    assert(edges_layout(schema, e, s, (j + 1) as nat).placements == mid.placements.push(p));
    let k = mid.placements.len() as int;
    lemma_edges_extend(schema, e, s, (j + 1) as nat, ne);
    assert(layout_of(schema, (i + 1) as nat)->Ok_0 == edges_layout(schema, e, s, ne));
    assert(edges_layout(schema, e, s, ne).placements[k] == p);
    assert(ps[k] == p);
    lemma_placement_entries(ps, ps.len());
    assert(placed(layout.tables, ps, ps.len()) is Ok);
    if placed(layout.tables, ps, k as nat) is Err {
        lemma_placed_error(layout.tables, ps, k as nat, ps.len());
    }
    if placed(layout.tables, ps, (k + 1) as nat) is Err {
        lemma_placed_error(layout.tables, ps, (k + 1) as nat, ps.len());
    }
    let before = placed(layout.tables, ps, k as nat)->Ok_0;
    lemma_mkey_index_bounds(before, p.table);
    k
}


// ---------------------------------------------------------------------------
// Laws of the column types and the field indexes
// ---------------------------------------------------------------------------

proof fn lemma_varchar_literals()
    ensures
        "VARCHAR("@ + decimal(255) + ")"@ == "VARCHAR(255)"@,
        "VARCHAR("@ + decimal(64) + ")"@ == "VARCHAR(64)"@,
{
    reveal_strlit("VARCHAR(");
    reveal_strlit(")");
    reveal_strlit("VARCHAR(255)");
    reveal_strlit("VARCHAR(64)");
    assert(decimal(2) == seq!['2']);
    assert(decimal(25) =~= seq!['2', '5']);
    assert(decimal(255) =~= seq!['2', '5', '5']);
    assert(decimal(6) == seq!['6']);
    assert(decimal(64) =~= seq!['6', '4']);
    assert("VARCHAR("@ + decimal(255) + ")"@ =~= "VARCHAR(255)"@);
    assert("VARCHAR("@ + decimal(64) + ")"@ =~= "VARCHAR(64)"@);
}

/// Law: the SQL column type of each primitive: `string` is `VARCHAR` of the
/// field's non-negative `maxLength`, else of 255; `text` and `json` are
/// `LONGTEXT`; `int` is `BIGINT`; `float` is `DOUBLE`; `bool` is
/// `TINYINT(1)`; `datetime` is `DATETIME`; `id` is `BIGINT UNSIGNED`; an
/// `enum` without an enumeration source is `VARCHAR(64)`. A field typed by a
/// declared type without values has the column type it would have with that
/// type's primitive; one with values is sized by them; a declared type that
/// the schema lacks is an error naming the field and the type.
pub proof fn law_column_types(schema: Schema, f: FieldDefinition)
    ensures
        f.ty.primitive == Some(Primitive::Text) ==> column_type_spec(schema, f) == Ok::<
            Seq<char>,
            Seq<char>,
        >("LONGTEXT"@),
        f.ty.primitive == Some(Primitive::Json) ==> column_type_spec(schema, f) == Ok::<
            Seq<char>,
            Seq<char>,
        >("LONGTEXT"@),
        f.ty.primitive == Some(Primitive::Int) ==> column_type_spec(schema, f) == Ok::<
            Seq<char>,
            Seq<char>,
        >("BIGINT"@),
        f.ty.primitive == Some(Primitive::Float) ==> column_type_spec(schema, f) == Ok::<
            Seq<char>,
            Seq<char>,
        >("DOUBLE"@),
        f.ty.primitive == Some(Primitive::Bool) ==> column_type_spec(schema, f) == Ok::<
            Seq<char>,
            Seq<char>,
        >("TINYINT(1)"@),
        f.ty.primitive == Some(Primitive::Datetime) ==> column_type_spec(schema, f) == Ok::<
            Seq<char>,
            Seq<char>,
        >("DATETIME"@),
        f.ty.primitive == Some(Primitive::Id) ==> column_type_spec(schema, f) == Ok::<
            Seq<char>,
            Seq<char>,
        >("BIGINT UNSIGNED"@),
        f.ty.primitive == Some(Primitive::String) && f.max_length is None ==> column_type_spec(
            schema,
            f,
        ) == Ok::<Seq<char>, Seq<char>>("VARCHAR(255)"@),
        f.ty.primitive == Some(Primitive::String) ==> match f.max_length {
            Some(m) => if m >= 0 {
                column_type_spec(schema, f) == Ok::<Seq<char>, Seq<char>>(
                    "VARCHAR("@ + decimal(m as nat) + ")"@,
                )
            } else {
                column_type_spec(schema, f) == Ok::<Seq<char>, Seq<char>>("VARCHAR(255)"@)
            },
            None => true,
        },
        f.ty.primitive == Some(Primitive::Enum) && f.enum_source is None ==> column_type_spec(
            schema,
            f,
        ) == Ok::<Seq<char>, Seq<char>>("VARCHAR(64)"@),
        f.ty.primitive is None ==> match f.ty.declared_type {
            Some(d) => match lookup(schema.types.entries@, d@) {
                Some(t) => match t.values {
                    None => column_type_spec(schema, f) == column_type_spec(
                        schema,
                        FieldDefinition {
                            ty: crate::ir::TypeReference {
                                primitive: Some(t.primitive),
                                declared_type: f.ty.declared_type,
                            },
                            ..f
                        },
                    ),
                    Some(v) => column_type_spec(schema, f) == Ok::<Seq<char>, Seq<char>>(
                        size_spec(v@),
                    ),
                },
                None => column_type_spec(schema, f) == Err::<Seq<char>, Seq<char>>(
                    "Field "@ + f.name@ + " references declared type \""@ + d@
                        + "\", which the schema compiler should already have proved exists."@,
                ),
            },
            None => true,
        },
{
    lemma_varchar_literals();
    if f.ty.primitive == Some(Primitive::String) {
        lemma_string_column(schema, f);
    }
}

proof fn lemma_string_column(schema: Schema, f: FieldDefinition)
    requires
        f.ty.primitive == Some(Primitive::String),
    ensures
        f.max_length is None ==> column_type_spec(schema, f) == Ok::<Seq<char>, Seq<char>>(
            "VARCHAR(255)"@,
        ),
        match f.max_length {
            Some(m) => if m >= 0 {
                column_type_spec(schema, f) == Ok::<Seq<char>, Seq<char>>(
                    "VARCHAR("@ + decimal(m as nat) + ")"@,
                )
            } else {
                column_type_spec(schema, f) == Ok::<Seq<char>, Seq<char>>("VARCHAR(255)"@)
            },
            None => true,
        },
{
    lemma_varchar_literals();
}

/// Law: an enumeration column is `VARCHAR(64)` without values, and
/// otherwise a `VARCHAR` as long as the longest value in bytes, at least 1.
pub proof fn law_enumeration_size(values: Seq<String>)
    ensures
        values.len() == 0 ==> size_spec(values) == "VARCHAR(64)"@,
        values.len() > 0 ==> exists|k: int|
            0 <= k < values.len() && size_spec(values) == "VARCHAR("@ + decimal(
                if byte_len(values[k]@) >= 1 {
                    byte_len(values[k]@)
                } else {
                    1
                },
            ) + ")"@ && forall|j: int|
                0 <= j < values.len() ==> byte_len(#[trigger] values[j]@) <= byte_len(values[k]@),
{
    lemma_varchar_literals();
    if values.len() > 0 {
        let k = lemma_longest(values, values.len());
        assert(size_spec(values) == "VARCHAR("@ + decimal(
            if byte_len(values[k]@) >= 1 {
                byte_len(values[k]@)
            } else {
                1
            },
        ) + ")"@);
    }
}

proof fn lemma_longest(values: Seq<String>, n: nat) -> (k: int)
    requires
        0 < n <= values.len(),
    ensures
        0 <= k < n,
        longest(values, n) == byte_len(values[k]@),
        forall|j: int| 0 <= j < n ==> byte_len(#[trigger] values[j]@) <= longest(values, n),
    decreases n,
{
    if n == 1 {
        assert(longest(values, 0) == 0);
        0
    } else {
        let k0 = lemma_longest(values, (n - 1) as nat);
        if longest(values, (n - 1) as nat) < byte_len(values[n - 1]@) {
            n - 1
        } else {
            k0
        }
    }
}

/// The fields among the first `n` that get an index: those that are unique
/// or indexed.
pub open spec fn indexed_count(fields: Seq<(String, FieldDefinition)>, n: nat) -> nat
    decreases n,
{
    if n == 0 {
        0
    } else {
        indexed_count(fields, (n - 1) as nat) + if fields[n - 1].1.unique
            || fields[n - 1].1.indexed {
            1nat
        } else {
            0nat
        }
    }
}

/// One for a linked entity (its `wp_post_id` column), else zero.
pub open spec fn linked_count(schema: Schema, e: EntityDefinition) -> nat {
    if is_linked(schema, e) {
        1
    } else {
        0
    }
}

/// Law: an entity's table, once its first `n` fields are added, has the
/// `id` column, then `wp_post_id` when the entity is linked, then one column
/// per field, named in snake case and nullable as the field is. Its indexes
/// are the unique `wp_post_id` index when linked, then, in field order, one
/// index for each field that is unique or indexed, named
/// `<table>_<column>_uniq` for a unique field and `<table>_<column>_idx`
/// otherwise (cut to 64 characters), over exactly that column, and unique
/// exactly when the field is; no other field gets an index.
pub proof fn law_field_columns_and_indexes(schema: Schema, e: EntityDefinition, n: nat)
    requires
        n <= e.fields.entries@.len(),
        fields_table(schema, e, n) is Ok,
    ensures
        ({
            let t = fields_table(schema, e, n)->Ok_0;
            let fs = e.fields.entries@;
            let table = e.storage.table@;
            let lk = linked_count(schema, e);
            &&& t.columns.len() == 1 + lk + n
            &&& t.columns[0] == ("id"@, column_spec("id"@, bigint_unsigned(), false, true))
            &&& is_linked(schema, e) ==> t.columns[1] == (
                "wp_post_id"@,
                column_spec("wp_post_id"@, bigint_unsigned(), true, false),
            )
            &&& t.primary == "id"@ && t.name == table
            &&& forall|j: int|
                0 <= j < n ==> (#[trigger] t.columns[1 + lk + j]).0 == snake_spec(fs[j].1.name@)
                    && column_type_spec(schema, fs[j].1) is Ok && t.columns[1 + lk + j].1
                    == column_spec(
                    snake_spec(fs[j].1.name@),
                    column_type_spec(schema, fs[j].1)->Ok_0,
                    fs[j].1.nullable,
                    false,
                )
            &&& t.indexes.len() == lk + indexed_count(fs, n)
            &&& is_linked(schema, e) ==> t.indexes[0] == index_spec(
                table,
                "wp_post_id"@,
                seq!["wp_post_id"@],
                true,
            )
            &&& forall|j: int|
                0 <= j < n && (fs[j].1.unique || fs[j].1.indexed) ==> #[trigger] t.indexes[(lk + indexed_count(fs, j as nat)) as int] == index_spec(
                    table,
                    snake_spec(fs[j].1.name@),
                    seq![snake_spec(fs[j].1.name@)],
                    fs[j].1.unique,
                )
        }),
    decreases n,
{
    let fs = e.fields.entries@;
    if n == 0 {
        reveal_strlit("wp_post_id");
    } else {
        assert(fields_table(schema, e, (n - 1) as nat) is Ok);
        law_field_columns_and_indexes(schema, e, (n - 1) as nat);
        let p = fields_table(schema, e, (n - 1) as nat)->Ok_0;
        let t = fields_table(schema, e, n)->Ok_0;
        let f = fs[n - 1].1;
        let c = snake_spec(f.name@);
        let lk = linked_count(schema, e);
        assert(fields_table(schema, e, n) == add_field_spec(schema, e, f, p));
        assert(is_linked(schema, e) ==> t.columns[1] == p.columns[1]);
        assert(!mhas_key(p.columns, c));
        assert(column_type_spec(schema, f) is Ok);
        assert(t.columns == p.columns.push((c, column_spec(c, column_type_spec(schema, f)->Ok_0, f.nullable, false))));
        assert(t.indexes == if f.unique || f.indexed {
            p.indexes.push(index_spec(e.storage.table@, c, seq![c], f.unique))
        } else {
            p.indexes
        });
        assert forall|j: int|
            0 <= j < n && (fs[j].1.unique || fs[j].1.indexed) implies #[trigger] t.indexes[(lk + indexed_count(fs, j as nat)) as int] == index_spec(
                e.storage.table@,
                snake_spec(fs[j].1.name@),
                seq![snake_spec(fs[j].1.name@)],
                fs[j].1.unique,
            ) by {
            if j < n - 1 {
                lemma_indexed_count_mono(fs, (j + 1) as nat, (n - 1) as nat);
                assert(t.indexes[(lk + indexed_count(fs, j as nat)) as int] == p.indexes[(lk + indexed_count(fs, j as nat)) as int]);
            } else {
                assert(j == n - 1);
                assert(p.indexes.len() == lk + indexed_count(fs, j as nat));
            }
        }
        assert forall|j: int| 0 <= j < n implies (#[trigger] t.columns[1 + lk + j]).0
            == snake_spec(fs[j].1.name@) && column_type_spec(schema, fs[j].1) is Ok
            && t.columns[1 + lk + j].1 == column_spec(
            snake_spec(fs[j].1.name@),
            column_type_spec(schema, fs[j].1)->Ok_0,
            fs[j].1.nullable,
            false,
        ) by {
            if j < n - 1 {
                assert(t.columns[1 + lk + j] == p.columns[1 + lk + j]);
            } else {
                assert(j == n - 1);
                assert(p.columns.len() == 1 + lk + j);
                assert(t.columns[1 + lk + j] == (c, column_spec(c, column_type_spec(schema, f)->Ok_0, f.nullable, false)));
            }
        }
    }
}

proof fn lemma_indexed_count_mono(fields: Seq<(String, FieldDefinition)>, m: nat, n: nat)
    requires
        m <= n,
    ensures
        indexed_count(fields, m) <= indexed_count(fields, n),
    decreases n,
{
    if m < n {
        lemma_indexed_count_mono(fields, m, (n - 1) as nat);
    }
}

} // verus!
