//! Table and column descriptions, and the DAO source generated from them.
use crate::make_dao::mapper_info::{
    mapper_columns, mapper_sql_ok, mappers_parse, mappers_src, select_columns, MapperInfo,
};
use crate::make_dao::templates::{
    lemma_as_ref_head, lemma_set_delete_templates, AS_REF_TEMPLATE, DELETE_TEMPLATE, INSERT_RETURNING_TEMPLATE, INSERT_TEMPLATE,
    SELECT_ALL_INCLUDE_DELETED_TEMPLATE, SELECT_ALL_PLAIN_TEMPLATE, SELECT_ALL_TEMPLATE,
    SELECT_ONE_TEMPLATE, SET_DELETE_IGNORE_VERSION_TEMPLATE, SET_DELETE_TEMPLATE, TIMESTAMP_CODE,
    UPDATE_TEMPLATE,
};
use crate::text::{
    append_chars, append_str, chars_eq, chars_of, contains, join, join_exec, lemma_find,
    lemma_contains_at, lemma_join_ends_with_last, lemma_occurs_within, lemma_replace_head,
    lemma_replace_hits, lemma_replace_keeps_disjoint, lemma_replace_keeps_first,
    lemma_replace_keeps_window, lemma_replace_skip, occurs_at, replace_all, replace_str, starts_with, str_eq, string_of,
    unicode_upper, unicode_upper_exec, views,
};
use crate::utils::{pascal, snake_to_pascal};
use vstd::prelude::*;

verus! {

/// A database table.
pub struct TableInfo {
    /// Table name.
    pub name: String,
    /// Display name.
    pub nick: String,
    /// Columns in declaration order.
    pub columns: Vec<ColumnInfo>,
    /// Table comment.
    pub comment: String,
    /// Custom statements read from the table's mapper file.
    pub mappers: Vec<MapperInfo>,
}

/// A column of a database table.
pub struct ColumnInfo {
    /// Column name.
    pub name: String,
    /// Display name.
    pub nick: String,
    /// Declared SQL type.
    pub data_type: String,
    /// Part of the primary key.
    pub is_primary_key: bool,
    /// Auto-increment column.
    pub is_auto_increment: bool,
    /// Default value.
    pub default_value: Option<String>,
    /// May hold NULL.
    pub is_nullable: bool,
    /// Column comment.
    pub comment: String,
}

impl Default for ColumnInfo {
    fn default() -> (r: Self)
        ensures
            r.name@.len() == 0 && r.nick@.len() == 0 && r.data_type@.len() == 0,
            !r.is_primary_key && !r.is_auto_increment && !r.is_nullable,
            r.default_value is None,
            r.comment@.len() == 0,
    {
        ColumnInfo {
            name: String::new(),
            nick: String::new(),
            data_type: String::new(),
            is_primary_key: false,
            is_auto_increment: false,
            default_value: None,
            is_nullable: false,
            comment: String::new(),
        }
    }
}

// ---------------------------------------------------------------------------
// Column-level specifications
// ---------------------------------------------------------------------------

/// The Rust type that a declared SQL type maps to (compared in upper case).
pub open spec fn rust_type(data_type: Seq<char>) -> Seq<char> {
    let u = unicode_upper(data_type);
    if u == "INTEGER"@ || u == "INT"@ || u == "BIGINT"@ || u == "INT8"@ || u == "INT16"@ || u
        == "INT32"@ || u == "INT64"@ {
        "i64"@
    } else if u == "VARCHAR"@ || u == "TEXT"@ {
        "String"@
    } else if u == "BOOLEAN"@ {
        "bool"@
    } else if u == "FLOAT"@ {
        "f32"@
    } else if u == "DOUBLE"@ {
        "f64"@
    } else {
        "String"@
    }
}

/// The field type of a column in the entity struct.
pub open spec fn member_type(c: ColumnInfo) -> Seq<char> {
    if c.is_nullable {
        "Option<"@ + rust_type(c.data_type@) + ">"@
    } else {
        rust_type(c.data_type@)
    }
}

/// The doc-comment line of a column (empty when it has no comment).
pub open spec fn member_comment(c: ColumnInfo) -> Seq<char> {
    if c.comment@.len() == 0 {
        c.comment@
    } else {
        "/// "@ + c.comment@
    }
}

/// The field declaration of a column in the entity struct.
pub open spec fn member_src(c: ColumnInfo) -> Seq<char> {
    member_comment(c) + "\n    pub "@ + c.name@ + ": "@ + member_type(c) + ",\n"@
}

/// Columns that the generated insert sets.
pub open spec fn insert_kept(c: ColumnInfo) -> bool {
    &&& !(c.is_auto_increment && c.is_primary_key)
    &&& c.name@ != "deleted_at"@
    &&& c.name@ != "deleted_by"@
    &&& c.name@ != "deleted"@
    &&& c.name@ != "version"@
}

/// Columns filled with the current time.
pub open spec fn is_time_column(c: ColumnInfo) -> bool {
    c.name@ == "created_at"@ || c.name@ == "updated_at"@
}

/// Columns that the generated update sets.
pub open spec fn update_kept(c: ColumnInfo) -> bool {
    &&& !c.is_primary_key
    &&& c.name@ != "created_at"@
    &&& c.name@ != "deleted_at"@
    &&& c.name@ != "deleted"@
    &&& c.name@ != "version"@
}

/// The per-column pieces that generated functions are assembled from.
pub enum ColumnPart {
    /// Every column: its name.
    Name,
    /// Every column: its entity field declaration.
    Member,
    /// Every column: its query-condition field declaration.
    QueryField,
    /// Inserted columns: their names.
    InsertName,
    /// Inserted columns: a `?` placeholder each.
    InsertMark,
    /// Inserted columns: the bound value.
    InsertParam,
    /// Inserted time columns: their names.
    InsertNow,
    /// Auto-increment primary-key columns: their names.
    AutoPk,
    /// Primary-key columns: their names.
    PkName,
    /// Primary-key columns: `name = ?`.
    PkWhere,
    /// Primary-key columns: `name:type`.
    PkArgTight,
    /// Primary-key columns: `name: type`.
    PkArg,
    /// Primary-key columns: `entity.name`.
    PkEntity,
    /// Updated columns: `name = ?`.
    UpdateSet,
    /// Updated columns: the bound value.
    UpdateParam,
    /// Updated `updated_at` columns: their names.
    UpdateNow,
}

/// Whether a column contributes a piece of the given kind.
pub open spec fn part_keep(kind: ColumnPart, c: ColumnInfo) -> bool {
    match kind {
        ColumnPart::Name | ColumnPart::Member | ColumnPart::QueryField => true,
        ColumnPart::InsertName | ColumnPart::InsertMark | ColumnPart::InsertParam => insert_kept(c),
        ColumnPart::InsertNow => insert_kept(c) && is_time_column(c),
        ColumnPart::AutoPk => c.is_auto_increment && c.is_primary_key,
        ColumnPart::PkName | ColumnPart::PkWhere | ColumnPart::PkArgTight | ColumnPart::PkArg
        | ColumnPart::PkEntity => c.is_primary_key,
        ColumnPart::UpdateSet | ColumnPart::UpdateParam => update_kept(c),
        ColumnPart::UpdateNow => update_kept(c) && c.name@ == "updated_at"@,
    }
}

/// The piece of the given kind that a column contributes.
pub open spec fn part_text(kind: ColumnPart, c: ColumnInfo) -> Seq<char> {
    match kind {
        ColumnPart::Name | ColumnPart::InsertName | ColumnPart::InsertNow | ColumnPart::AutoPk
        | ColumnPart::PkName | ColumnPart::UpdateNow => c.name@,
        ColumnPart::Member => member_src(c),
        ColumnPart::QueryField => "    pub "@ + c.name@ + ": "@ + ("QueryModel<"@ + rust_type(
            c.data_type@,
        ) + ">"@) + ",\n"@,
        ColumnPart::InsertMark => "?"@,
        ColumnPart::InsertParam => if is_time_column(c) {
            "timestamp"@
        } else {
            "entity."@ + c.name@
        },
        ColumnPart::PkWhere | ColumnPart::UpdateSet => c.name@ + " = ?"@,
        ColumnPart::PkArgTight => c.name@ + ":"@ + rust_type(c.data_type@),
        ColumnPart::PkArg => c.name@ + ": "@ + rust_type(c.data_type@),
        ColumnPart::PkEntity => "entity."@ + c.name@,
        ColumnPart::UpdateParam => if c.name@ == "updated_at"@ {
            "timestamp"@
        } else {
            "entity."@ + c.name@
        },
    }
}

/// The pieces of the given kind, in column order.
pub open spec fn col_parts(kind: ColumnPart, cols: Seq<ColumnInfo>) -> Seq<Seq<char>>
    decreases cols.len(),
{
    if cols.len() == 0 {
        seq![]
    } else {
        let rest = col_parts(kind, cols.drop_last());
        if part_keep(kind, cols.last()) {
            rest.push(part_text(kind, cols.last()))
        } else {
            rest
        }
    }
}

/// Some column has the given name.
pub open spec fn has_column(cols: Seq<ColumnInfo>, name: Seq<char>) -> bool {
    exists|i: int| 0 <= i < cols.len() && #[trigger] cols[i].name@ == name
}

/// The concatenation of texts.
pub open spec fn concat_all(list: Seq<Seq<char>>) -> Seq<char> {
    join(list, seq![])
}

/// The name of the entity struct of a table.
pub open spec fn entity_of(t: TableInfo) -> Seq<char> {
    pascal(t.name@, "_"@)
}

// ---------------------------------------------------------------------------
// Table-level specifications
// ---------------------------------------------------------------------------

/// A one-element list when `b` holds, else the empty list.
pub open spec fn opt(b: bool, x: Seq<char>) -> Seq<Seq<char>> {
    if b {
        seq![x]
    } else {
        seq![]
    }
}

/// The entity struct of a table, with its `AsRef` impl.
pub open spec fn entity_src(t: TableInfo) -> Seq<char> {
    "#[derive(Clone, Debug, Default, serde::Serialize, serde::Deserialize)]\n"@ + "pub struct "@
        + entity_of(t) + " {\n"@ + concat_all(col_parts(ColumnPart::Member, t.columns@)) + "}\n"@
        + replace_all(AS_REF_TEMPLATE@, "[ENTITY]"@, entity_of(t))
}

/// The query-condition struct of a table.
pub open spec fn query_entity_src(t: TableInfo) -> Seq<char> {
    "#[derive(Default)]\n"@ + "pub struct "@ + entity_of(t) + "Query {\n"@ + concat_all(
        col_parts(ColumnPart::QueryField, t.columns@),
    ) + "}\n"@
}

/// The first column that is both auto-increment and primary key.
pub open spec fn auto_pk(t: TableInfo) -> Option<Seq<char>> {
    let l = col_parts(ColumnPart::AutoPk, t.columns@);
    if l.len() > 0 {
        Some(l[0])
    } else {
        None
    }
}

/// The generated insert function.
pub open spec fn insert_src(t: TableInfo) -> Seq<char> {
    let cols = t.columns@;
    let base = "INSERT INTO "@ + t.name@ + " ("@ + join(col_parts(ColumnPart::InsertName, cols), ", "@)
        + ") VALUES ("@ + join(col_parts(ColumnPart::InsertMark, cols), ", "@) + ")"@;
    let (sql, tpl) = match auto_pk(t) {
        Some(key) => (base + " RETURNING "@ + key, INSERT_RETURNING_TEMPLATE@),
        None => (base, INSERT_TEMPLATE@),
    };
    let time_code = if col_parts(ColumnPart::InsertNow, cols).len() > 0 {
        TIMESTAMP_CODE@
    } else {
        Seq::<char>::empty()
    };
    replace_all(
        replace_all(
            replace_all(replace_all(tpl, "[TIME_CODE]"@, time_code), "[SQL]"@, sql),
            "[PARAM]"@,
            join(col_parts(ColumnPart::InsertParam, cols), ", "@),
        ),
        "[ENTITY]"@,
        entity_of(t),
    )
}

/// The generated select-one-by-primary-key function (empty without a key).
pub open spec fn select_one_src(t: TableInfo) -> Seq<char> {
    let cols = t.columns@;
    let where_cols = col_parts(ColumnPart::PkWhere, cols);
    if where_cols.len() == 0 {
        Seq::<char>::empty()
    } else {
        replace_all(
            replace_all(
                replace_all(
                    replace_all(
                        replace_all(
                            replace_all(
                                SELECT_ONE_TEMPLATE@,
                                "[FUNC_PARAMS]"@,
                                join(col_parts(ColumnPart::PkArgTight, cols), ", "@),
                            ),
                            "[TABLE]"@,
                            t.name@,
                        ),
                        "[FIELDS]"@,
                        join(col_parts(ColumnPart::Name, cols), ", "@),
                    ),
                    "[ENTITY]"@,
                    entity_of(t),
                ),
                "[WHERE]"@,
                join(where_cols, " AND "@),
            ),
            "[PARAM]"@,
            join(col_parts(ColumnPart::PkName, cols), ", "@),
        )
    }
}

/// A select-all template filled in for a table.
pub open spec fn fill_select_all(tpl: Seq<char>, t: TableInfo) -> Seq<char> {
    replace_all(replace_all(tpl, "[TABLE]"@, t.name@), "[ENTITY]"@, entity_of(t))
}

/// The generated select-all functions.
pub open spec fn select_all_src(t: TableInfo) -> Seq<char> {
    if has_column(t.columns@, "deleted"@) {
        fill_select_all(SELECT_ALL_TEMPLATE@, t) + "\n"@ + fill_select_all(
            SELECT_ALL_INCLUDE_DELETED_TEMPLATE@,
            t,
        )
    } else {
        fill_select_all(SELECT_ALL_PLAIN_TEMPLATE@, t)
    }
}

/// The `WHERE` conditions of the generated update.
pub open spec fn update_where(t: TableInfo) -> Seq<Seq<char>> {
    col_parts(ColumnPart::PkWhere, t.columns@) + opt(has_column(t.columns@, "version"@), "version = ?"@)
        + opt(has_column(t.columns@, "deleted"@), "deleted = 0"@)
}

/// The generated update function (empty without a `WHERE` condition).
pub open spec fn update_src(t: TableInfo) -> Seq<char> {
    let cols = t.columns@;
    let hv = has_column(cols, "version"@);
    let sets = opt(hv, "version = version + 1"@) + col_parts(ColumnPart::UpdateSet, cols);
    let params = col_parts(ColumnPart::UpdateParam, cols) + col_parts(ColumnPart::PkEntity, cols)
        + opt(hv, "entity.version"@);
    let ts = if col_parts(ColumnPart::UpdateNow, cols).len() > 0 {
        TIMESTAMP_CODE@
    } else {
        Seq::<char>::empty()
    };
    let sql = "UPDATE "@ + t.name@ + " SET "@ + join(sets, ", "@) + " WHERE "@ + join(
        update_where(t),
        " AND "@,
    );
    if update_where(t).len() == 0 {
        Seq::<char>::empty()
    } else {
        replace_all(
            replace_all(
                replace_all(replace_all(UPDATE_TEMPLATE@, "[TIMESTAMP]"@, ts), "[SQL]"@, sql),
                "[PARAM]"@,
                join(params, ", "@),
            ),
            "[ENTITY]"@,
            entity_of(t),
        )
    }
}

/// A logical-delete function: with `with_version` the version takes part
/// in the arguments and the `WHERE` conditions.
pub open spec fn set_delete_src(t: TableInfo, with_version: bool, tpl: Seq<char>) -> Seq<char> {
    let cols = t.columns@;
    let hv = has_column(cols, "version"@);
    let hda = has_column(cols, "deleted_at"@);
    let hdb = has_column(cols, "deleted_by"@);
    let pk_where = col_parts(ColumnPart::PkWhere, cols);
    let func_params = col_parts(ColumnPart::PkArg, cols) + opt(with_version && hv, "version: i64"@)
        + opt(hdb, "deleted_by: String"@);
    let where_cols = pk_where + opt(with_version && hv, "version = ?"@) + seq!["deleted = 0"@];
    let fields = seq!["deleted = 1"@] + opt(hv, "version = version + 1"@) + opt(hda, "deleted_at = ?"@)
        + opt(hdb, "deleted_by = ?"@);
    let ts = if hda {
        TIMESTAMP_CODE@
    } else {
        Seq::<char>::empty()
    };
    let sql_params = opt(hda, "timestamp"@) + opt(hdb, "deleted_by"@) + col_parts(ColumnPart::PkName, cols)
        + opt(with_version && hv, "version"@);
    let sql = "UPDATE "@ + t.name@ + " SET "@ + join(fields, ", "@) + " WHERE "@ + join(
        where_cols,
        " AND "@,
    );
    if !has_column(cols, "deleted"@) || pk_where.len() == 0 {
        Seq::<char>::empty()
    } else {
        replace_all(
            replace_all(
                replace_all(replace_all(tpl, "[TIMESTAMP]"@, ts), "[SQL]"@, sql),
                "[PARAM]"@,
                join(sql_params, ", "@),
            ),
            "[FUNC_PARAMS]"@,
            join(func_params, ", "@),
        )
    }
}

/// The generated physical delete function (empty without a primary key).
pub open spec fn delete_src(t: TableInfo) -> Seq<char> {
    let cols = t.columns@;
    let pk_where = col_parts(ColumnPart::PkWhere, cols);
    if pk_where.len() == 0 {
        Seq::<char>::empty()
    } else {
        replace_all(
            replace_all(
                replace_all(
                    DELETE_TEMPLATE@,
                    "[SQL]"@,
                    "DELETE FROM "@ + t.name@ + " WHERE "@ + join(pk_where, " AND "@),
                ),
                "[PARAM]"@,
                join(col_parts(ColumnPart::PkName, cols), ", "@),
            ),
            "[FUNC_PARAMS]"@,
            join(col_parts(ColumnPart::PkArg, cols), ", "@),
        )
    }
}

// ---------------------------------------------------------------------------
// Column-level executable pieces
// ---------------------------------------------------------------------------

fn name_is(c: &ColumnInfo, lit: &str) -> (r: bool)
    ensures
        r == (c.name@ == lit@),
{
    str_eq(c.name.as_str(), lit)
}

fn insert_kept_exec(c: &ColumnInfo) -> (r: bool)
    ensures
        r == insert_kept(*c),
{
    !(c.is_auto_increment && c.is_primary_key) && !name_is(c, "deleted_at") && !name_is(
        c,
        "deleted_by",
    ) && !name_is(c, "deleted") && !name_is(c, "version")
}

fn is_time_column_exec(c: &ColumnInfo) -> (r: bool)
    ensures
        r == is_time_column(*c),
{
    name_is(c, "created_at") || name_is(c, "updated_at")
}

fn update_kept_exec(c: &ColumnInfo) -> (r: bool)
    ensures
        r == update_kept(*c),
{
    !c.is_primary_key && !name_is(c, "created_at") && !name_is(c, "deleted_at") && !name_is(
        c,
        "deleted",
    ) && !name_is(c, "version")
}

fn part_keep_exec(kind: &ColumnPart, c: &ColumnInfo) -> (r: bool)
    ensures
        r == part_keep(*kind, *c),
{
    match kind {
        ColumnPart::Name | ColumnPart::Member | ColumnPart::QueryField => true,
        ColumnPart::InsertName | ColumnPart::InsertMark | ColumnPart::InsertParam => insert_kept_exec(c),
        ColumnPart::InsertNow => insert_kept_exec(c) && is_time_column_exec(c),
        ColumnPart::AutoPk => c.is_auto_increment && c.is_primary_key,
        ColumnPart::PkName | ColumnPart::PkWhere | ColumnPart::PkArgTight | ColumnPart::PkArg
        | ColumnPart::PkEntity => c.is_primary_key,
        ColumnPart::UpdateSet | ColumnPart::UpdateParam => update_kept_exec(c),
        ColumnPart::UpdateNow => update_kept_exec(c) && name_is(c, "updated_at"),
    }
}

fn rust_type_chars(data_type: &str) -> (r: Vec<char>)
    ensures
        r@ == rust_type(data_type@),
{
    chars_of(ColumnInfo::map_data_type_to_rust_type(data_type))
}

fn part_text_exec(kind: &ColumnPart, c: &ColumnInfo) -> (r: Vec<char>)
    ensures
        r@ == part_text(*kind, *c),
{
    let name = chars_of(c.name.as_str());
    match kind {
        ColumnPart::Name | ColumnPart::InsertName | ColumnPart::InsertNow | ColumnPart::AutoPk
        | ColumnPart::PkName | ColumnPart::UpdateNow => name,
        ColumnPart::Member => chars_of(c.make_member_src().as_str()),
        ColumnPart::QueryField => {
            let mut r = chars_of("    pub ");
            append_chars(&mut r, &name);
            append_str(&mut r, ": ");
            append_str(&mut r, "QueryModel<");
            let t = rust_type_chars(c.data_type.as_str());
            append_chars(&mut r, &t);
            append_str(&mut r, ">");
            append_str(&mut r, ",\n");
            assert(r@ =~= part_text(*kind, *c));
            r
        },
        ColumnPart::InsertMark => chars_of("?"),
        ColumnPart::InsertParam => {
            if is_time_column_exec(c) {
                chars_of("timestamp")
            } else {
                let mut r = chars_of("entity.");
                append_chars(&mut r, &name);
                r
            }
        },
        ColumnPart::PkWhere | ColumnPart::UpdateSet => {
            let mut r = name;
            append_str(&mut r, " = ?");
            r
        },
        ColumnPart::PkArgTight => {
            let mut r = name;
            append_str(&mut r, ":");
            let t = rust_type_chars(c.data_type.as_str());
            append_chars(&mut r, &t);
            r
        },
        ColumnPart::PkArg => {
            let mut r = name;
            append_str(&mut r, ": ");
            let t = rust_type_chars(c.data_type.as_str());
            append_chars(&mut r, &t);
            r
        },
        ColumnPart::PkEntity => {
            let mut r = chars_of("entity.");
            append_chars(&mut r, &name);
            r
        },
        ColumnPart::UpdateParam => {
            if name_is(c, "updated_at") {
                chars_of("timestamp")
            } else {
                let mut r = chars_of("entity.");
                append_chars(&mut r, &name);
                r
            }
        },
    }
}

/// The pieces of the given kind for the columns, in column order.
pub fn column_parts(kind: &ColumnPart, cols: &Vec<ColumnInfo>) -> (r: Vec<Vec<char>>)
    ensures
        views(r@) == col_parts(*kind, cols@),
{
    let mut r: Vec<Vec<char>> = Vec::new();
    let mut i: usize = 0;
    while i < cols.len()
        invariant
            i <= cols@.len(),
            views(r@) == col_parts(*kind, cols@.take(i as int)),
        decreases cols.len() - i,
    {
        assert(cols@.take(i + 1).drop_last() =~= cols@.take(i as int));
        assert(cols@.take(i + 1).last() == cols@[i as int]);
        if part_keep_exec(kind, &cols[i]) {
            let t = part_text_exec(kind, &cols[i]);
            let ghost before = views(r@);
            r.push(t);
            assert(views(r@) =~= before.push(t@));
        }
        i = i + 1;
    }
    assert(cols@.take(cols@.len() as int) =~= cols@);
    r
}

/// Whether some column has the given name.
fn has_column_exec(cols: &Vec<ColumnInfo>, name: &str) -> (r: bool)
    ensures
        r == has_column(cols@, name@),
{
    let mut i: usize = 0;
    while i < cols.len()
        invariant
            i <= cols@.len(),
            forall|j: int| 0 <= j < i ==> cols@[j].name@ != name@,
        decreases cols.len() - i,
    {
        if name_is(&cols[i], name) {
            return true;
        }
        i = i + 1;
    }
    false
}

/// The concatenation of texts.
fn concat_all_exec(list: &Vec<Vec<char>>) -> (r: Vec<char>)
    ensures
        r@ == concat_all(views(list@)),
{
    let empty: Vec<char> = Vec::new();
    let r = join_exec(list, &empty);
    assert(empty@ =~= Seq::<char>::empty());
    r
}

/// A one-element list when `b` holds, else the empty list.
fn opt_exec(b: bool, x: &str) -> (r: Vec<Vec<char>>)
    ensures
        views(r@) == opt(b, x@),
{
    let mut r: Vec<Vec<char>> = Vec::new();
    if b {
        r.push(chars_of(x));
        assert(views(r@) =~= seq![x@]);
    } else {
        assert(views(r@) =~= Seq::<Seq<char>>::empty());
    }
    r
}

/// Appends the second list to the first.
fn append_list(a: &mut Vec<Vec<char>>, b: Vec<Vec<char>>)
    ensures
        views(final(a)@) == views(old(a)@) + views(b@),
{
    let ghost bv = b@;
    let mut b = b;
    a.append(&mut b);
    assert(views(a@) =~= views(old(a)@) + views(bv));
}

impl TableInfo {
    /// Some column is named `version`.
    pub fn has_version(&self) -> (r: bool)
        ensures
            r == has_column(self.columns@, "version"@),
    {
        has_column_exec(&self.columns, "version")
    }

    /// Some column is named `deleted`.
    pub fn has_deleted(&self) -> (r: bool)
        ensures
            r == has_column(self.columns@, "deleted"@),
    {
        has_column_exec(&self.columns, "deleted")
    }

    /// Some column is named `deleted_at`.
    pub fn has_deleted_at(&self) -> (r: bool)
        ensures
            r == has_column(self.columns@, "deleted_at"@),
    {
        has_column_exec(&self.columns, "deleted_at")
    }

    /// Some column is named `deleted_by`.
    pub fn has_deleted_by(&self) -> (r: bool)
        ensures
            r == has_column(self.columns@, "deleted_by"@),
    {
        has_column_exec(&self.columns, "deleted_by")
    }

    /// The primary-key columns, in column order.
    pub fn primary_key_columns(&self) -> (r: Vec<&ColumnInfo>)
        ensures
            r@.map_values(|c: &ColumnInfo| c.name@) == col_parts(ColumnPart::PkName, self.columns@),
    {
        let mut r: Vec<&ColumnInfo> = Vec::new();
        let mut i: usize = 0;
        while i < self.columns.len()
            invariant
                i <= self.columns@.len(),
                r@.map_values(|c: &ColumnInfo| c.name@) == col_parts(
                    ColumnPart::PkName,
                    self.columns@.take(i as int),
                ),
            decreases self.columns.len() - i,
        {
            assert(self.columns@.take(i + 1).drop_last() =~= self.columns@.take(i as int));
            assert(self.columns@.take(i + 1).last() == self.columns@[i as int]);
            if self.columns[i].is_primary_key {
                let ghost before = r@.map_values(|c: &ColumnInfo| c.name@);
                r.push(&self.columns[i]);
                assert(r@.map_values(|c: &ColumnInfo| c.name@) =~= before.push(
                    self.columns@[i as int].name@,
                ));
            }
            i = i + 1;
        }
        assert(self.columns@.take(self.columns@.len() as int) =~= self.columns@);
        r
    }

    /// The name of the entity struct: the table name in `PascalCase`.
    pub fn get_entity_name(&self) -> (r: String)
        ensures
            r@ == entity_of(*self),
    {
        snake_to_pascal(self.name.as_str(), "_")
    }

    fn entity_chars(&self) -> (r: Vec<char>)
        ensures
            r@ == entity_of(*self),
    {
        chars_of(self.get_entity_name().as_str())
    }

    /// The source of the entity struct: a field per column, then an `AsRef`
    /// impl for the struct.
    pub fn make_entity_src(&self) -> (r: String)
        ensures
            r@ == entity_src(*self),
    {
        let e = self.entity_chars();
        let mut r = chars_of("#[derive(Clone, Debug, Default, serde::Serialize, serde::Deserialize)]\n");
        append_str(&mut r, "pub struct ");
        append_chars(&mut r, &e);
        append_str(&mut r, " {\n");
        let members = concat_all_exec(&column_parts(&ColumnPart::Member, &self.columns));
        append_chars(&mut r, &members);
        append_str(&mut r, "}\n");
        proof {
            reveal_strlit("[ENTITY]");
        }
        let imp = replace_str(&chars_of(AS_REF_TEMPLATE), "[ENTITY]", &e);
        append_chars(&mut r, &imp);
        assert(r@ =~= entity_src(*self));
        string_of(&r)
    }

    /// The source of the query-condition struct: a `QueryModel` field per column.
    pub fn make_query_entity_src(&self) -> (r: String)
        ensures
            r@ == query_entity_src(*self),
    {
        let e = self.entity_chars();
        let mut r = chars_of("#[derive(Default)]\n");
        append_str(&mut r, "pub struct ");
        append_chars(&mut r, &e);
        append_str(&mut r, "Query {\n");
        let fields = concat_all_exec(&column_parts(&ColumnPart::QueryField, &self.columns));
        append_chars(&mut r, &fields);
        append_str(&mut r, "}\n");
        assert(r@ =~= query_entity_src(*self));
        string_of(&r)
    }

    /// The name of the first column that is both auto-increment and primary key.
    pub fn auto_increment_and_primary_column(&self) -> (r: Option<String>)
        ensures
            r matches Some(n) ==> auto_pk(*self) == Some(n@),
            r is None ==> auto_pk(*self) is None,
    {
        let l = column_parts(&ColumnPart::AutoPk, &self.columns);
        if l.len() > 0 {
            assert(views(l@)[0] == l@[0]@);
            Some(string_of(&l[0]))
        } else {
            None
        }
    }

    /// The source of the insert function. It sets every column but an
    /// auto-increment primary key and the `deleted`, `deleted_at`,
    /// `deleted_by` and `version` columns; `created_at` and `updated_at` take
    /// the current time; with an auto-increment primary key the statement
    /// returns it.
    pub fn make_insert_func(&self) -> (r: String)
        ensures
            r@ == insert_src(*self),
    {
        let names = column_parts(&ColumnPart::InsertName, &self.columns);
        let marks = column_parts(&ColumnPart::InsertMark, &self.columns);
        let params = column_parts(&ColumnPart::InsertParam, &self.columns);
        let now = column_parts(&ColumnPart::InsertNow, &self.columns);
        let mut sql = chars_of("INSERT INTO ");
        append_str(&mut sql, self.name.as_str());
        append_str(&mut sql, " (");
        append_chars(&mut sql, &join_exec(&names, &chars_of(", ")));
        append_str(&mut sql, ") VALUES (");
        append_chars(&mut sql, &join_exec(&marks, &chars_of(", ")));
        append_str(&mut sql, ")");
        let ghost base = sql@;
        let key = self.auto_increment_and_primary_column();
        let tpl = match &key {
            Some(k) => {
                append_str(&mut sql, " RETURNING ");
                append_str(&mut sql, k.as_str());
                chars_of(INSERT_RETURNING_TEMPLATE)
            },
            None => chars_of(INSERT_TEMPLATE),
        };
        let time_code = if now.len() > 0 {
            chars_of(TIMESTAMP_CODE)
        } else {
            Vec::new()
        };
        proof {
            reveal_strlit("[TIME_CODE]");
            reveal_strlit("[SQL]");
            reveal_strlit("[PARAM]");
            reveal_strlit("[ENTITY]");
        }
        let a = replace_str(&tpl, "[TIME_CODE]", &time_code);
        let b = replace_str(&a, "[SQL]", &sql);
        let c = replace_str(&b, "[PARAM]", &join_exec(&params, &chars_of(", ")));
        let d = replace_str(&c, "[ENTITY]", &self.entity_chars());
        assert(time_code@ == (if col_parts(ColumnPart::InsertNow, self.columns@).len() > 0 {
            TIMESTAMP_CODE@
        } else {
            Seq::<char>::empty()
        }));
        string_of(&d)
    }

    /// The source of the select-one function, keyed by the primary-key
    /// columns; empty when the table has no primary key.
    pub fn make_select_one_func(&self) -> (r: String)
        ensures
            r@ == select_one_src(*self),
    {
        let where_cols = column_parts(&ColumnPart::PkWhere, &self.columns);
        if where_cols.len() == 0 {
            return String::new();
        }
        let func_params = column_parts(&ColumnPart::PkArgTight, &self.columns);
        let fields = column_parts(&ColumnPart::Name, &self.columns);
        let where_params = column_parts(&ColumnPart::PkName, &self.columns);
        proof {
            reveal_strlit("[FUNC_PARAMS]");
            reveal_strlit("[TABLE]");
            reveal_strlit("[FIELDS]");
            reveal_strlit("[ENTITY]");
            reveal_strlit("[WHERE]");
            reveal_strlit("[PARAM]");
        }
        let a = replace_str(
            &chars_of(SELECT_ONE_TEMPLATE),
            "[FUNC_PARAMS]",
            &join_exec(&func_params, &chars_of(", ")),
        );
        let b = replace_str(&a, "[TABLE]", &chars_of(self.name.as_str()));
        let c = replace_str(&b, "[FIELDS]", &join_exec(&fields, &chars_of(", ")));
        let d = replace_str(&c, "[ENTITY]", &self.entity_chars());
        let e = replace_str(&d, "[WHERE]", &join_exec(&where_cols, &chars_of(" AND ")));
        let f = replace_str(&e, "[PARAM]", &join_exec(&where_params, &chars_of(", ")));
        string_of(&f)
    }

    fn fill_select_all_exec(&self, tpl: &str) -> (r: Vec<char>)
        ensures
            r@ == fill_select_all(tpl@, *self),
    {
        proof {
            reveal_strlit("[TABLE]");
            reveal_strlit("[ENTITY]");
        }
        let a = replace_str(&chars_of(tpl), "[TABLE]", &chars_of(self.name.as_str()));
        replace_str(&a, "[ENTITY]", &self.entity_chars())
    }

    /// The source of the select-all function; with a `deleted` column also a
    /// second function that includes logically deleted rows.
    pub fn make_select_all_func(&self) -> (r: String)
        ensures
            r@ == select_all_src(*self),
    {
        if self.has_deleted() {
            let mut r = self.fill_select_all_exec(SELECT_ALL_TEMPLATE);
            append_str(&mut r, "\n");
            let b = self.fill_select_all_exec(SELECT_ALL_INCLUDE_DELETED_TEMPLATE);
            append_chars(&mut r, &b);
            string_of(&r)
        } else {
            let r = self.fill_select_all_exec(SELECT_ALL_PLAIN_TEMPLATE);
            string_of(&r)
        }
    }

    /// The source of the update function: it sets every column but the
    /// primary key, `created_at`, `deleted_at`, `deleted` and `version`,
    /// bumps the version and checks it (optimistic locking), skips deleted
    /// rows, and stamps `updated_at`; empty without a `WHERE` condition.
    pub fn make_update_func(&self) -> (r: String)
        ensures
            r@ == update_src(*self),
    {
        let hv = self.has_version();
        let hd = self.has_deleted();
        let mut sets = opt_exec(hv, "version = version + 1");
        append_list(&mut sets, column_parts(&ColumnPart::UpdateSet, &self.columns));
        let mut params = column_parts(&ColumnPart::UpdateParam, &self.columns);
        append_list(&mut params, column_parts(&ColumnPart::PkEntity, &self.columns));
        append_list(&mut params, opt_exec(hv, "entity.version"));
        let mut where_cols = column_parts(&ColumnPart::PkWhere, &self.columns);
        append_list(&mut where_cols, opt_exec(hv, "version = ?"));
        append_list(&mut where_cols, opt_exec(hd, "deleted = 0"));
        let now = column_parts(&ColumnPart::UpdateNow, &self.columns);
        let ts = if now.len() > 0 {
            chars_of(TIMESTAMP_CODE)
        } else {
            Vec::new()
        };
        let mut sql = chars_of("UPDATE ");
        append_str(&mut sql, self.name.as_str());
        append_str(&mut sql, " SET ");
        append_chars(&mut sql, &join_exec(&sets, &chars_of(", ")));
        append_str(&mut sql, " WHERE ");
        append_chars(&mut sql, &join_exec(&where_cols, &chars_of(" AND ")));
        if where_cols.len() == 0 {
            return String::new();
        }
        proof {
            reveal_strlit("[TIMESTAMP]");
            reveal_strlit("[SQL]");
            reveal_strlit("[PARAM]");
            reveal_strlit("[ENTITY]");
        }
        let a = replace_str(&chars_of(UPDATE_TEMPLATE), "[TIMESTAMP]", &ts);
        let b = replace_str(&a, "[SQL]", &sql);
        let c = replace_str(&b, "[PARAM]", &join_exec(&params, &chars_of(", ")));
        let d = replace_str(&c, "[ENTITY]", &self.entity_chars());
        assert(ts@ == (if col_parts(ColumnPart::UpdateNow, self.columns@).len() > 0 {
            TIMESTAMP_CODE@
        } else {
            Seq::<char>::empty()
        }));
        string_of(&d)
    }

    fn set_delete_exec(&self, with_version: bool, tpl: &str) -> (r: String)
        ensures
            r@ == set_delete_src(*self, with_version, tpl@),
    {
        if !self.has_deleted() {
            return String::new();
        }
        let pk_where = column_parts(&ColumnPart::PkWhere, &self.columns);
        if pk_where.len() == 0 {
            return String::new();
        }
        let hv = self.has_version();
        let hda = self.has_deleted_at();
        let hdb = self.has_deleted_by();
        let mut func_params = column_parts(&ColumnPart::PkArg, &self.columns);
        append_list(&mut func_params, opt_exec(with_version && hv, "version: i64"));
        append_list(&mut func_params, opt_exec(hdb, "deleted_by: String"));
        let mut where_cols = pk_where;
        append_list(&mut where_cols, opt_exec(with_version && hv, "version = ?"));
        append_list(&mut where_cols, opt_exec(true, "deleted = 0"));
        let mut fields = opt_exec(true, "deleted = 1");
        append_list(&mut fields, opt_exec(hv, "version = version + 1"));
        append_list(&mut fields, opt_exec(hda, "deleted_at = ?"));
        append_list(&mut fields, opt_exec(hdb, "deleted_by = ?"));
        let ts = if hda {
            chars_of(TIMESTAMP_CODE)
        } else {
            Vec::new()
        };
        let mut sql_params = opt_exec(hda, "timestamp");
        append_list(&mut sql_params, opt_exec(hdb, "deleted_by"));
        append_list(&mut sql_params, column_parts(&ColumnPart::PkName, &self.columns));
        append_list(&mut sql_params, opt_exec(with_version && hv, "version"));
        let mut sql = chars_of("UPDATE ");
        append_str(&mut sql, self.name.as_str());
        append_str(&mut sql, " SET ");
        append_chars(&mut sql, &join_exec(&fields, &chars_of(", ")));
        append_str(&mut sql, " WHERE ");
        append_chars(&mut sql, &join_exec(&where_cols, &chars_of(" AND ")));
        proof {
            reveal_strlit("[TIMESTAMP]");
            reveal_strlit("[SQL]");
            reveal_strlit("[PARAM]");
            reveal_strlit("[FUNC_PARAMS]");
        }
        let a = replace_str(&chars_of(tpl), "[TIMESTAMP]", &ts);
        let b = replace_str(&a, "[SQL]", &sql);
        let c = replace_str(&b, "[PARAM]", &join_exec(&sql_params, &chars_of(", ")));
        let d = replace_str(&c, "[FUNC_PARAMS]", &join_exec(&func_params, &chars_of(", ")));
        assert(ts@ == (if has_column(self.columns@, "deleted_at"@) {
            TIMESTAMP_CODE@
        } else {
            Seq::<char>::empty()
        }));
        string_of(&d)
    }

    /// The source of the logical delete function: it sets `deleted = 1`,
    /// bumps and checks the version, stamps `deleted_at` and records
    /// `deleted_by`; empty without a `deleted` column or a primary key.
    pub fn make_set_delete_func(&self) -> (r: String)
        ensures
            r@ == set_delete_src(*self, true, SET_DELETE_TEMPLATE@),
    {
        self.set_delete_exec(true, SET_DELETE_TEMPLATE)
    }

    /// The source of the logical delete function that does not check the
    /// version (it still bumps it).
    pub fn make_set_delete_ignore_version_func(&self) -> (r: String)
        ensures
            r@ == set_delete_src(*self, false, SET_DELETE_IGNORE_VERSION_TEMPLATE@),
    {
        self.set_delete_exec(false, SET_DELETE_IGNORE_VERSION_TEMPLATE)
    }

    /// The source of the physical delete function, keyed by the primary
    /// key; empty without a primary key.
    pub fn make_delete_func(&self) -> (r: String)
        ensures
            r@ == delete_src(*self),
    {
        let pk_where = column_parts(&ColumnPart::PkWhere, &self.columns);
        if pk_where.len() == 0 {
            return String::new();
        }
        let sql_params = column_parts(&ColumnPart::PkName, &self.columns);
        let func_params = column_parts(&ColumnPart::PkArg, &self.columns);
        let mut sql = chars_of("DELETE FROM ");
        append_str(&mut sql, self.name.as_str());
        append_str(&mut sql, " WHERE ");
        append_chars(&mut sql, &join_exec(&pk_where, &chars_of(" AND ")));
        proof {
            reveal_strlit("[SQL]");
            reveal_strlit("[PARAM]");
            reveal_strlit("[FUNC_PARAMS]");
        }
        let a = replace_str(&chars_of(DELETE_TEMPLATE), "[SQL]", &sql);
        let b = replace_str(&a, "[PARAM]", &join_exec(&sql_params, &chars_of(", ")));
        let c = replace_str(&b, "[FUNC_PARAMS]", &join_exec(&func_params, &chars_of(", ")));
        string_of(&c)
    }

    /// The functions generated for the table's mappers, in order. Every
    /// mapper statement must parse.
    pub fn make_mapper_func(&self) -> (r: String)
        requires
            mappers_parse(*self),
        ensures
            r@ == mappers_src(*self, mapper_columns(*self)),
    {
        let mut out: Vec<char> = Vec::new();
        let ghost cs = mapper_columns(*self);
        let mut i: usize = 0;
        while i < self.mappers.len()
            invariant
                i <= self.mappers@.len(),
                mappers_parse(*self),
                cs == mapper_columns(*self),
                out@ == mappers_src(*self, cs.take(i as int)),
            decreases self.mappers.len() - i,
        {
            let m = &self.mappers[i];
            assert(mapper_sql_ok(self.mappers@[i as int].sql@));
            let src = m.make_mapper_source(self);
            append_str(&mut out, src.as_str());
            assert(cs.take(i + 1).drop_last() =~= cs.take(i as int));
            assert(cs.take(i + 1).last() == select_columns(m.sql@));
            i = i + 1;
        }
        assert(cs.take(self.mappers@.len() as int) =~= cs);
        string_of(&out)
    }
}

impl ColumnInfo {
    /// The Rust type of a declared SQL type: `i64` for the integer types,
    /// `String` for text, `bool`, `f32`, `f64`, and `String` otherwise.
    pub fn map_data_type_to_rust_type(data_type: &str) -> (r: &'static str)
        ensures
            r@ == rust_type(data_type@),
    {
        let u = unicode_upper_exec(&chars_of(data_type));
        if chars_eq(&u, &chars_of("INTEGER")) || chars_eq(&u, &chars_of("INT")) || chars_eq(
            &u,
            &chars_of("BIGINT"),
        ) || chars_eq(&u, &chars_of("INT8")) || chars_eq(&u, &chars_of("INT16")) || chars_eq(
            &u,
            &chars_of("INT32"),
        ) || chars_eq(&u, &chars_of("INT64")) {
            "i64"
        } else if chars_eq(&u, &chars_of("VARCHAR")) || chars_eq(&u, &chars_of("TEXT")) {
            "String"
        } else if chars_eq(&u, &chars_of("BOOLEAN")) {
            "bool"
        } else if chars_eq(&u, &chars_of("FLOAT")) {
            "f32"
        } else if chars_eq(&u, &chars_of("DOUBLE")) {
            "f64"
        } else {
            "String"
        }
    }

    /// The field declaration of this column in the entity struct: its comment
    /// as a doc line, then `pub name: Type,` (wrapped in `Option` if nullable).
    pub fn make_member_src(&self) -> (r: String)
        ensures
            r@ == member_src(*self),
    {
        let t = rust_type_chars(self.data_type.as_str());
        let field_type = if self.is_nullable {
            let mut f = chars_of("Option<");
            append_chars(&mut f, &t);
            append_str(&mut f, ">");
            f
        } else {
            t
        };
        let comment = chars_of(self.comment.as_str());
        let mut r = if comment.len() == 0 {
            comment
        } else {
            let mut c = chars_of("/// ");
            append_chars(&mut c, &comment);
            c
        };
        append_str(&mut r, "\n    pub ");
        append_str(&mut r, self.name.as_str());
        append_str(&mut r, ": ");
        append_chars(&mut r, &field_type);
        append_str(&mut r, ",\n");
        assert(r@ =~= member_src(*self));
        string_of(&r)
    }
}

/// The entity source of a table begins with the derive line, `pub struct`,
/// the entity name and the member lines of its columns in order, closed by
/// `}`; and it holds the `AsRef` impl of the entity for itself.
pub proof fn lemma_entity_source_shape(t: TableInfo)
    ensures
        starts_with(
            entity_src(t),
            "#[derive(Clone, Debug, Default, serde::Serialize, serde::Deserialize)]\n"@
                + "pub struct "@ + entity_of(t) + " {\n"@ + concat_all(
                col_parts(ColumnPart::Member, t.columns@),
            ) + "}\n"@,
        ),
        contains(entity_src(t), "impl AsRef<"@ + entity_of(t) + "> for "@ + entity_of(t) + " {"@),
{
    let e = entity_of(t);
    let head = "#[derive(Clone, Debug, Default, serde::Serialize, serde::Deserialize)]\n"@
        + "pub struct "@ + e + " {\n"@ + concat_all(col_parts(ColumnPart::Member, t.columns@))
        + "}\n"@;
    let full = entity_src(t);
    assert(full.subrange(0, head.len() as int) =~= head);
    let tpl = AS_REF_TEMPLATE@;
    lemma_as_ref_head();
    reveal_strlit("\n        impl AsRef<[ENTITY]> for [ENTITY] {");
    reveal_strlit("[ENTITY]");
    reveal_strlit("impl AsRef<");
    reveal_strlit("> for ");
    reveal_strlit(" {");
    let lit = "\n        impl AsRef<[ENTITY]> for [ENTITY] {"@;
    let p = "[ENTITY]"@;
    let a = tpl.subrange(0, 20);
    let b = tpl.subrange(28, 34);
    let c = tpl.subrange(42, tpl.len() as int);
    let c0 = c.subrange(0, 2);
    let c1 = c.skip(2);
    assert(tpl.subrange(0, 44) == lit);
    assert forall|k: int| 0 <= k < 20 implies a[k] != p[0] by {
        assert(a[k] == lit[k]);
    }
    assert forall|k: int| 0 <= k < 6 implies b[k] != p[0] by {
        assert(b[k] == lit[k + 28]);
    }
    assert forall|k: int| 0 <= k < 2 implies c0[k] != p[0] by {
        assert(c0[k] == lit[k + 42]);
    }
    assert(lit.subrange(20, 28) =~= p);
    assert(lit.subrange(34, 42) =~= p);
    assert(tpl.subrange(20, 28) =~= lit.subrange(20, 28));
    assert(tpl.subrange(34, 42) =~= lit.subrange(34, 42));
    assert(tpl =~= a + (p + (b + (p + (c0 + c1)))));
    lemma_replace_skip(c0, c1, p, e);
    lemma_replace_head(c0 + c1, p, e);
    lemma_replace_skip(b, p + (c0 + c1), p, e);
    lemma_replace_head(b + (p + (c0 + c1)), p, e);
    lemma_replace_skip(a, p + (b + (p + (c0 + c1))), p, e);
    let r = replace_all(tpl, p, e);
    assert(r =~= a + (e + (b + (e + (c0 + replace_all(c1, p, e))))));
    assert(full =~= head + r);
    let q = "impl AsRef<"@ + e + "> for "@ + e + " {"@;
    assert(lit.subrange(9, 20) =~= "impl AsRef<"@);
    assert(lit.subrange(28, 34) =~= "> for "@);
    assert(lit.subrange(42, 44) =~= " {"@);
    assert(a.subrange(9, 20) =~= lit.subrange(9, 20));
    assert(b =~= lit.subrange(28, 34));
    assert(c0 =~= lit.subrange(42, 44));
    let pre = head + a.subrange(0, 9);
    let rest = replace_all(c1, p, e);
    assert(full =~= pre + q + rest);
    let at: int = pre.len() as int;
    assert(full.subrange(at, at + q.len() as int) =~= q);
    assert(occurs_at(full, q, at));
    lemma_find(full, q);
}

proof fn lemma_set_delete_nonempty(t: TableInfo, with_version: bool, tpl: Seq<char>)
    requires
        tpl.len() > 0,
        tpl[0] == '\n',
    ensures
        has_column(t.columns@, "deleted"@) && col_parts(ColumnPart::PkWhere, t.columns@).len() > 0
            ==> set_delete_src(t, with_version, tpl).len() > 0,
{
    reveal_strlit("[TIMESTAMP]");
    reveal_strlit("[SQL]");
    reveal_strlit("[PARAM]");
    reveal_strlit("[FUNC_PARAMS]");
    assert forall|s: Seq<char>, pat: Seq<char>, rep: Seq<char>|
        pat.len() > 0 && s.len() > 0 && s[0] != pat[0] implies #[trigger] replace_all(
        s,
        pat,
        rep,
    ).len() > 0 && replace_all(s, pat, rep)[0] == s[0] by {
        lemma_replace_keeps_first(s, pat, rep);
    }
}

proof fn lemma_set_delete_prefix(t: TableInfo, with_version: bool, c: Seq<char>, b: Seq<char>)
    requires
        forall|i: int| 0 <= i < c.len() ==> c[i] != '[',
        has_column(t.columns@, "deleted"@),
        col_parts(ColumnPart::PkWhere, t.columns@).len() > 0,
    ensures
        set_delete_src(t, with_version, c + b) == c + set_delete_src(t, with_version, b),
{
    reveal_strlit("[TIMESTAMP]");
    reveal_strlit("[SQL]");
    reveal_strlit("[PARAM]");
    reveal_strlit("[FUNC_PARAMS]");
    assert forall|x: Seq<char>, pat: Seq<char>, rep: Seq<char>|
        pat.len() > 0 && pat[0] == '[' implies #[trigger] replace_all(c + x, pat, rep) == c
        + replace_all(x, pat, rep) by {
        lemma_replace_skip(c, x, pat, rep);
    }
}

/// Without a version column, the logical delete that ignores the version
/// ([`TableInfo::make_set_delete_ignore_version_func`]) is the logical
/// delete ([`TableInfo::make_set_delete_func`]) under another name: both
/// are filled with the same SQL, bind list and parameters, both are empty
/// together, and otherwise the two texts differ only in
/// `pub async fn set_delete<` against `pub async fn set_delete_ignone_version<`.
pub proof fn lemma_set_delete_without_version(t: TableInfo)
    requires
        !has_column(t.columns@, "version"@),
    ensures
        forall|tpl: Seq<char>| #[trigger]
            set_delete_src(t, true, tpl) == set_delete_src(t, false, tpl),
        (set_delete_src(t, true, SET_DELETE_TEMPLATE@).len() == 0) == (set_delete_src(
            t,
            false,
            SET_DELETE_IGNORE_VERSION_TEMPLATE@,
        ).len() == 0),
        set_delete_src(t, true, SET_DELETE_TEMPLATE@).len() > 0 ==> exists|x: Seq<char>, y: Seq<char>|
            #![trigger x + "pub async fn set_delete<"@ + y]
            set_delete_src(t, true, SET_DELETE_TEMPLATE@) == x + "pub async fn set_delete<"@ + y
                && set_delete_src(t, false, SET_DELETE_IGNORE_VERSION_TEMPLATE@) == x
                + "pub async fn set_delete_ignone_version<"@ + y,
{
    lemma_set_delete_templates();
    lemma_set_delete_nonempty(t, true, SET_DELETE_TEMPLATE@);
    lemma_set_delete_nonempty(t, false, SET_DELETE_IGNORE_VERSION_TEMPLATE@);
    if has_column(t.columns@, "deleted"@) && col_parts(ColumnPart::PkWhere, t.columns@).len() > 0 {
        reveal_strlit("pub async fn set_delete<");
        reveal_strlit("pub async fn set_delete_ignone_version<");
        let (x, y) = choose|x: Seq<char>, y: Seq<char>|
            SET_DELETE_TEMPLATE@ == x + "pub async fn set_delete<"@ + y
                && SET_DELETE_IGNORE_VERSION_TEMPLATE@ == x + "pub async fn set_delete_ignone_version<"@ + y
                && forall|i: int| 0 <= i < x.len() ==> x[i] != '[';
        let p1 = "pub async fn set_delete<"@;
        let p2 = "pub async fn set_delete_ignone_version<"@;
        let c1 = x + p1;
        let c2 = x + p2;
        assert forall|i: int| 0 <= i < c1.len() implies c1[i] != '[' by {
            if i >= x.len() {
                assert(c1[i] == p1[i - x.len()]);
            }
        }
        assert forall|i: int| 0 <= i < c2.len() implies c2[i] != '[' by {
            if i >= x.len() {
                assert(c2[i] == p2[i - x.len()]);
            }
        }
        assert(SET_DELETE_TEMPLATE@ =~= c1 + y);
        assert(SET_DELETE_IGNORE_VERSION_TEMPLATE@ =~= c2 + y);
        lemma_set_delete_prefix(t, true, c1, y);
        lemma_set_delete_prefix(t, false, c2, y);
        let yy = set_delete_src(t, false, y);
        assert(set_delete_src(t, true, y) == yy);
        assert(set_delete_src(t, true, SET_DELETE_TEMPLATE@) =~= x + p1 + yy);
        assert(set_delete_src(t, false, SET_DELETE_IGNORE_VERSION_TEMPLATE@) =~= x + p2 + yy);
    }
}

/// The generated update of a table with a `deleted` column never touches
/// logically deleted rows: `deleted = 0` is among the conditions of its
/// statement.
pub proof fn lemma_update_skips_deleted(t: TableInfo)
    requires
        has_column(t.columns@, "deleted"@),
    ensures
        contains(update_src(t), "deleted = 0"@),
{
    reveal_strlit(r##"
        /// 更新数据
        pub async fn update<'e, E>(executor: E, entity: impl AsRef<[ENTITY]>) -> Result<u64, sqlx::Error>
        where
            E: sqlx::Executor<'e, Database = sqlx::Sqlite>,
        {
            [TIMESTAMP]
            let entity = entity.as_ref();
            let rs = sqlx::query!(
            "[SQL]",
            [PARAM]
            ).execute(executor).await?;
            let count = rs.rows_affected();
            Ok(count)
        }
        "##);
    reveal_strlit("[TIMESTAMP]");
    reveal_strlit("[SQL]");
    reveal_strlit("[PARAM]");
    reveal_strlit("[ENTITY]");
    reveal_strlit("deleted = 0");
    let cols = t.columns@;
    let hv = has_column(cols, "version"@);
    let sets = opt(hv, "version = version + 1"@) + col_parts(ColumnPart::UpdateSet, cols);
    let params = col_parts(ColumnPart::UpdateParam, cols) + col_parts(ColumnPart::PkEntity, cols)
        + opt(hv, "entity.version"@);
    let ts = if col_parts(ColumnPart::UpdateNow, cols).len() > 0 {
        TIMESTAMP_CODE@
    } else {
        Seq::<char>::empty()
    };
    let w = update_where(t);
    let sql = "UPDATE "@ + t.name@ + " SET "@ + join(sets, ", "@) + " WHERE "@ + join(w, " AND "@);
    let q = "deleted = 0"@;
    assert(w.last() == q);
    lemma_join_ends_with_last(w, " AND "@);
    let jw = join(w, " AND "@);
    let pre = "UPDATE "@ + t.name@ + " SET "@ + join(sets, ", "@) + " WHERE "@;
    assert(sql =~= pre + jw);
    assert(sql.subrange(sql.len() - q.len(), sql.len() as int) =~= jw.subrange(
        jw.len() - q.len(),
        jw.len() as int,
    ));
    assert(occurs_at(sql, q, sql.len() - q.len()));
    let tpl = UPDATE_TEMPLATE@;
    let tsp = "[TIMESTAMP]"@;
    let sqlp = "[SQL]"@;
    assert(tpl.subrange(322, 327) =~= sqlp);
    assert(occurs_at(tpl, sqlp, 322));
    assert forall|j: int| 322 - tsp.len() < j < 322 + sqlp.len() implies !occurs_at(tpl, tsp, j) by {
        if j == 322 {
            assert(tpl.subrange(j, j + tsp.len())[1] != tsp[1]);
        } else {
            assert(tpl[j] != '[');
            assert(tpl.subrange(j, j + tsp.len())[0] == tpl[j]);
        }
    }
    lemma_replace_keeps_window(tpl, sqlp, tsp, ts, 322);
    let x1 = replace_all(tpl, tsp, ts);
    let j1 = choose|j: int| occurs_at(x1, sqlp, j);
    lemma_replace_hits(x1, sqlp, sql, j1);
    let x2 = replace_all(x1, sqlp, sql);
    let j2 = choose|j: int| occurs_at(x2, sql, j);
    lemma_occurs_within(x2, sql, q, j2, sql.len() - q.len());
    let pp = "[PARAM]"@;
    let ep = "[ENTITY]"@;
    assert forall|a: int, b: int| 0 <= a < q.len() && 0 <= b < pp.len() implies q[a] != pp[b] by {}
    assert forall|a: int, b: int| 0 <= a < q.len() && 0 <= b < ep.len() implies q[a] != ep[b] by {}
    lemma_replace_keeps_disjoint(x2, q, pp, join(params, ", "@), j2 + sql.len() - q.len());
    let x3 = replace_all(x2, pp, join(params, ", "@));
    let j3 = choose|j: int| occurs_at(x3, q, j);
    lemma_replace_keeps_disjoint(x3, q, ep, entity_of(t), j3);
    let x4 = replace_all(x3, ep, entity_of(t));
    let j4 = choose|j: int| occurs_at(x4, q, j);
    assert(x4 == update_src(t));
    lemma_contains_at(x4, q, j4);
}

} // verus!
