//! Custom statements from mapper files and the functions generated for them.
use crate::make_dao::table_info::{col_parts, entity_of, ColumnPart, TableInfo};
use crate::make_dao::templates::{
    MAPPER_EXECUTE_TEMPLATE, MAPPER_LIST_TEMPLATE, MAPPER_ONE_TEMPLATE,
};
use crate::text::{
    append_chars, append_str, chars_of, dec, dec_exec, ends_with, ends_with_exec, join, join_exec,
    contains, contains_exec, lemma_replace_keeps_first, replace_all, replace_str, slice_exec, string_of, unicode_upper,
    unicode_upper_exec, views,
};
use sqlparser::ast::Expr::{CompoundIdentifier, Identifier};
use sqlparser::ast::SelectItem::{ExprWithAlias, QualifiedWildcard, UnnamedExpr, Wildcard};
use sqlparser::ast::SetExpr::Select;
use sqlparser::ast::Statement::Query;
use sqlparser::dialect::GenericDialect;
use sqlparser::parser::{Parser, ParserError};
use vstd::prelude::*;

verus! {

#[verifier::external_type_specification]
#[verifier::external_body]
pub struct ExParserError(ParserError);

/// The kind of statement a mapper holds.
pub enum CrudType {
    Unknown,
    Create,
    Read,
    Update,
    Delete,
}

/// A custom statement and the signature of the function generated for it.
pub struct MapperInfo {
    /// The SQL text, parameters written `:name`.
    pub sql: String,
    /// Function name.
    pub name: String,
    /// Whether the function returns a list.
    pub is_list: bool,
    /// Returned row type.
    pub return_type: String,
    /// Parameter list as written.
    pub params_str: String,
    /// Statement kind.
    pub crud_type: CrudType,
}

impl Default for MapperInfo {
    fn default() -> (r: Self)
        ensures
            r.sql@.len() == 0 && r.name@.len() == 0 && r.return_type@.len() == 0
                && r.params_str@.len() == 0,
            !r.is_list,
            r.crud_type is Unknown,
    {
        MapperInfo {
            sql: String::new(),
            name: String::new(),
            is_list: false,
            return_type: String::new(),
            params_str: String::new(),
            crud_type: CrudType::Unknown,
        }
    }
}

// ---------------------------------------------------------------------------
// The SQL parser, behind a trusted item
// ---------------------------------------------------------------------------

/// One item of a `SELECT` projection, as far as column names go.
pub enum SelectPart {
    /// A plain identifier: its value.
    Identifier(String),
    /// A dotted identifier: the values of its parts.
    Compound(Vec<String>),
    /// An aliased expression: the alias.
    Alias(String),
    /// `*`.
    Wildcard,
    /// `name.*`: the name as displayed.
    Qualified(String),
    /// Any other expression: its debug text.
    Other(String),
}

/// A projection item as plain text values.
pub enum PartView {
    Identifier(Seq<char>),
    Compound(Seq<Seq<char>>),
    Alias(Seq<char>),
    Wildcard,
    Qualified(Seq<char>),
    Other(Seq<char>),
}

impl View for SelectPart {
    type V = PartView;

    open spec fn view(&self) -> PartView {
        match self {
            SelectPart::Identifier(v) => PartView::Identifier(v@),
            SelectPart::Compound(vs) => PartView::Compound(vs@.map_values(|s: String| s@)),
            SelectPart::Alias(a) => PartView::Alias(a@),
            SelectPart::Wildcard => PartView::Wildcard,
            SelectPart::Qualified(n) => PartView::Qualified(n@),
            SelectPart::Other(d) => PartView::Other(d@),
        }
    }
}

/// The statements of a parsed text, each the items of its projection when
/// it is a query whose body is a plain `SELECT`, else `None`.
pub open spec fn projections_view(v: Seq<Option<Vec<SelectPart>>>) -> Seq<Option<Seq<PartView>>> {
    v.map_values(
        |o: Option<Vec<SelectPart>>|
            match o {
                Some(items) => Some(items@.map_values(|p: SelectPart| p@)),
                None => None,
            },
    )
}

/// What `sqlparser`'s generic dialect reads from a SQL text: for each
/// statement, the items of its projection when the statement is a query
/// whose body is a plain `SELECT` and `None` otherwise; `None` as a whole
/// when the text does not parse.
pub uninterp spec fn sql_projections(sql: Seq<char>) -> Option<Seq<Option<Seq<PartView>>>>;

/// Whether the generic dialect parses the text.
pub open spec fn generic_sql_parses(sql: Seq<char>) -> bool {
    sql_projections(sql) is Some
}

/// The text names neither `FLUSH` nor `GRANTED`, in any letter case. The
/// parser panics on two statement forms, `FLUSH ... FOR CHANNEL` and
/// `GRANT`/`REVOKE ... GRANTED BY`, each reached only through one of these
/// keywords (which it matches on the word's `to_uppercase`); other texts it
/// parses or refuses with an error.
pub open spec fn sql_safe(sql: Seq<char>) -> bool {
    !contains(unicode_upper(sql), "FLUSH"@) && !contains(unicode_upper(sql), "GRANTED"@)
}

/// A mapper statement the library can take: it avoids the parser's
/// panicking forms and it parses.
pub open spec fn mapper_sql_ok(sql: Seq<char>) -> bool {
    sql_safe(sql) && generic_sql_parses(sql)
}

/// Whether the text avoids the parser's panicking forms (see [`sql_safe`]).
pub fn sql_is_safe(sql: &str) -> (r: bool)
    ensures
        r == sql_safe(sql@),
{
    let u = unicode_upper_exec(&chars_of(sql));
    proof {
        reveal_strlit("FLUSH");
        reveal_strlit("GRANTED");
    }
    !contains_exec(&u, &chars_of("FLUSH")) && !contains_exec(&u, &chars_of("GRANTED"))
}

/// `sqlparser::parser::Parser::parse_sql` with the generic dialect, each
/// statement's projection items taken apart into plain values (a plain or
/// dotted identifier's values, an alias, `*`, the display of `t` in `t.*`,
/// the derived `Debug` text of any other expression). The result is that
/// of [`sql_projections`] on the text; an error exactly when the text does
/// not parse. The parser's `unwrap`s after `FLUSH ... FOR CHANNEL` and
/// after `GRANTED BY` are kept out by [`sql_safe`].
#[verifier::external_body]
fn parse_projections(sql: &str) -> (r: Result<Vec<Option<Vec<SelectPart>>>, ParserError>)
    requires
        sql_safe(sql@),
    ensures
        match r {
            Ok(v) => sql_projections(sql@) == Some(projections_view(v@)),
            Err(_) => sql_projections(sql@) is None,
        },
{
    Ok(Parser::parse_sql(&GenericDialect {}, sql)?.into_iter().map(|st| match st {
        Query(q) => match *q.body {
            Select(s) => Some(s.projection.into_iter().map(|item| match item {
                UnnamedExpr(Identifier(i)) => SelectPart::Identifier(i.value),
                UnnamedExpr(CompoundIdentifier(ids)) =>
                    SelectPart::Compound(ids.into_iter().map(|i| i.value).collect()),
                UnnamedExpr(e) => SelectPart::Other(format!("{:?}", e)),
                ExprWithAlias { alias, .. } => SelectPart::Alias(alias.value),
                Wildcard(_) => SelectPart::Wildcard,
                QualifiedWildcard(n, _) => SelectPart::Qualified(n.to_string()),
            }).collect()),
            _ => None,
        },
        _ => None,
    }).collect())
}

/// Whether the SQL text is a mapper statement the library can take: it
/// avoids the parser's panicking forms and parses with the generic dialect.
pub fn sql_parses(sql: &str) -> (r: bool)
    ensures
        r == mapper_sql_ok(sql@),
{
    sql_is_safe(sql) && parse_projections(sql).is_ok()
}

/// The column name of a projection item: an identifier's value, a dotted
/// identifier's parts joined with `.`, an alias, `*`, the name of `t.*`, or
/// the debug text of another expression.
pub open spec fn part_name(p: PartView) -> Seq<char> {
    match p {
        PartView::Identifier(v) => v,
        PartView::Compound(vs) => join(vs, "."@),
        PartView::Alias(a) => a,
        PartView::Wildcard => "*"@,
        PartView::Qualified(n) => n,
        PartView::Other(d) => d,
    }
}

/// The column names of the plain `SELECT` statements, in order.
pub open spec fn projection_names(ps: Seq<Option<Seq<PartView>>>) -> Seq<Seq<char>>
    decreases ps.len(),
{
    if ps.len() == 0 {
        seq![]
    } else {
        projection_names(ps.drop_last()) + match ps.last() {
            Some(items) => items.map_values(|p: PartView| part_name(p)),
            None => Seq::<Seq<char>>::empty(),
        }
    }
}

/// The columns that a SQL text selects (nothing when it does not parse).
pub open spec fn select_columns(sql: Seq<char>) -> Seq<Seq<char>> {
    match sql_projections(sql) {
        Some(ps) => projection_names(ps),
        None => seq![],
    }
}

fn part_text(p: &SelectPart) -> (r: String)
    ensures
        r@ == part_name(p@),
{
    match p {
        SelectPart::Identifier(v) => string_of(&chars_of(v.as_str())),
        SelectPart::Compound(parts) => {
            let mut cs: Vec<Vec<char>> = Vec::new();
            let mut k: usize = 0;
            while k < parts.len()
                invariant
                    k <= parts@.len(),
                    views(cs@) == parts@.map_values(|s: String| s@).take(k as int),
                decreases parts.len() - k,
            {
                let ghost before = views(cs@);
                let c = chars_of(parts[k].as_str());
                cs.push(c);
                assert(views(cs@) =~= before.push(c@));
                assert(parts@.map_values(|s: String| s@).take(k + 1) =~= before.push(parts@[k as int]@));
                k = k + 1;
            }
            assert(parts@.map_values(|s: String| s@).take(parts@.len() as int) =~= parts@.map_values(
                |s: String| s@,
            ));
            proof {
                reveal_strlit(".");
            }
            string_of(&join_exec(&cs, &chars_of(".")))
        },
        SelectPart::Alias(a) => string_of(&chars_of(a.as_str())),
        SelectPart::Wildcard => {
            proof {
                reveal_strlit("*");
            }
            string_of(&chars_of("*"))
        },
        SelectPart::Qualified(n) => string_of(&chars_of(n.as_str())),
        SelectPart::Other(d) => string_of(&chars_of(d.as_str())),
    }
}

impl MapperInfo {
    /// The column names of the `SELECT` statements of a SQL text: a plain
    /// identifier gives its value, a dotted one its parts joined with `.`,
    /// an alias its name, `*` gives `*`, `t.*` the name `t`, and any other
    /// expression its debug text. The text must parse and avoid the
    /// parser's panicking forms.
    pub fn extract_columns(sql: &str) -> (r: Vec<String>)
        requires
            mapper_sql_ok(sql@),
        ensures
            r@.map_values(|s: String| s@) == select_columns(sql@),
    {
        let mut columns: Vec<String> = Vec::new();
        let stmts = match parse_projections(sql) {
            Ok(v) => v,
            Err(_) => return columns,
        };
        let ghost pv = projections_view(stmts@);
        let mut i: usize = 0;
        while i < stmts.len()
            invariant
                i <= stmts@.len(),
                pv == projections_view(stmts@),
                sql_projections(sql@) == Some(pv),
                columns@.map_values(|s: String| s@) == projection_names(pv.take(i as int)),
            decreases stmts.len() - i,
        {
            assert(pv.take(i + 1).drop_last() =~= pv.take(i as int));
            match &stmts[i] {
                Some(items) => {
                    let ghost base = columns@.map_values(|s: String| s@);
                    let ghost iv = items@.map_values(|p: SelectPart| p@);
                    assert(pv.take(i + 1).last() == Some(iv));
                    let mut k: usize = 0;
                    while k < items.len()
                        invariant
                            k <= items@.len(),
                            iv == items@.map_values(|p: SelectPart| p@),
                            columns@.map_values(|s: String| s@) == base + iv.take(k as int).map_values(
                                |p: PartView| part_name(p),
                            ),
                        decreases items.len() - k,
                    {
                        let ghost before = columns@.map_values(|s: String| s@);
                        let t = part_text(&items[k]);
                        columns.push(t);
                        assert(columns@.map_values(|s: String| s@) =~= before.push(t@));
                        assert(iv.take(k + 1).map_values(|p: PartView| part_name(p)) =~= iv.take(
                            k as int,
                        ).map_values(|p: PartView| part_name(p)).push(part_name(iv[k as int])));
                        k = k + 1;
                    }
                    assert(iv.take(items@.len() as int) =~= iv);
                },
                None => {
                    assert(pv.take(i + 1).last() is None);
                    assert(projection_names(pv.take(i + 1)) =~= projection_names(pv.take(i as int)));
                },
            }
            i = i + 1;
        }
        assert(pv.take(stmts@.len() as int) =~= pv);
        columns
    }
}

// ---------------------------------------------------------------------------
// Specifications
// ---------------------------------------------------------------------------

/// A char that may appear in a parameter name.
pub open spec fn is_param_char(c: char) -> bool {
    ('a' <= c && c <= 'z') || ('A' <= c && c <= 'Z') || ('0' <= c && c <= '9') || c == '_'
}

/// Where the run of parameter chars starting at `k` ends.
pub open spec fn param_end(s: Seq<char>, k: int) -> int
    decreases s.len() - k,
{
    if 0 <= k < s.len() && is_param_char(s[k]) {
        param_end(s, k + 1)
    } else {
        k
    }
}

/// The parameter names (`:name`) of `s` from position `i` on, left to right.
pub open spec fn params_from(s: Seq<char>, i: int) -> Seq<Seq<char>>
    decreases s.len() - i,
{
    if i < 0 || i >= s.len() {
        seq![]
    } else if s[i] == ':' && param_end(s, i + 1) > i + 1 {
        proof {
            lemma_param_end(s, i + 1);
        }
        seq![s.subrange(i + 1, param_end(s, i + 1))] + params_from(s, param_end(s, i + 1))
    } else {
        params_from(s, i + 1)
    }
}

/// The parameter names of a SQL text.
pub open spec fn sql_params(s: Seq<char>) -> Seq<Seq<char>> {
    params_from(s, 0)
}

/// `param_end` lies between its start and the end of the text.
pub proof fn lemma_param_end(s: Seq<char>, k: int)
    requires
        0 <= k <= s.len(),
    ensures
        k <= param_end(s, k) <= s.len(),
        forall|j: int| k <= j < param_end(s, k) ==> is_param_char(s[j]),
        param_end(s, k) < s.len() ==> !is_param_char(s[param_end(s, k)]),
    decreases s.len() - k,
{
    if k < s.len() && is_param_char(s[k]) {
        lemma_param_end(s, k + 1);
    }
}

/// `s` from position `i` on with each parameter (`:` followed by a run of
/// name chars) replaced by `?`.
pub open spec fn marks_from(s: Seq<char>, i: int) -> Seq<char>
    decreases s.len() - i,
{
    if i < 0 || i >= s.len() {
        seq![]
    } else if s[i] == ':' && param_end(s, i + 1) > i + 1 {
        proof {
            lemma_param_end(s, i + 1);
        }
        seq!['?'] + marks_from(s, param_end(s, i + 1))
    } else {
        seq![s[i]] + marks_from(s, i + 1)
    }
}

/// A SQL text with each of its parameters replaced by `?`.
pub open spec fn sql_with_marks(s: Seq<char>) -> Seq<char> {
    marks_from(s, 0)
}

/// The struct fields filled from a row: the selected columns, where a
/// column ending in `*` stands for all columns of the table when the mapper
/// returns the table's entity, and for nothing otherwise.
pub open spec fn struct_columns(
    cols: Seq<Seq<char>>,
    return_type: Seq<char>,
    t: TableInfo,
) -> Seq<Seq<char>>
    decreases cols.len(),
{
    if cols.len() == 0 {
        seq![]
    } else {
        let rest = struct_columns(cols.drop_last(), return_type, t);
        if ends_with(cols.last(), "*"@) {
            if return_type == entity_of(t) {
                rest + col_parts(ColumnPart::Name, t.columns@)
            } else {
                rest
            }
        } else {
            rest.push(cols.last())
        }
    }
}

/// `name:row.get(i)?,` for each field, numbered from 0.
pub open spec fn row_fields(names: Seq<Seq<char>>) -> Seq<char>
    decreases names.len(),
{
    if names.len() == 0 {
        seq![]
    } else {
        row_fields(names.drop_last()) + names.last() + ":row.get("@ + dec((names.len() - 1) as nat)
            + ")?,"@
    }
}

/// The template for a mapper's statement kind.
pub open spec fn mapper_template(m: MapperInfo) -> Seq<char> {
    match m.crud_type {
        CrudType::Read => if m.is_list {
            MAPPER_LIST_TEMPLATE@
        } else {
            MAPPER_ONE_TEMPLATE@
        },
        CrudType::Update | CrudType::Delete | CrudType::Create => MAPPER_EXECUTE_TEMPLATE@,
        CrudType::Unknown => Seq::<char>::empty(),
    }
}

/// The function generated for a mapper of a table, given the columns its
/// statement selects.
pub open spec fn mapper_src(m: MapperInfo, t: TableInfo, columns: Seq<Seq<char>>) -> Seq<char> {
    let ps = sql_params(m.sql@);
    replace_all(
        replace_all(
            replace_all(
                replace_all(
                    replace_all(
                        replace_all(
                            replace_all(mapper_template(m), "[FUNC_NAME]"@, m.name@),
                            "[FUNC_PARAMS]"@,
                            m.params_str@,
                        ),
                        "[SQL_PARAM]"@,
                        join(ps, ", "@),
                    ),
                    "[RETURN_TYPE]"@,
                    m.return_type@,
                ),
                "[SQL]"@,
                sql_with_marks(m.sql@),
            ),
            "[ENTITY]"@,
            entity_of(t),
        ),
        "[ROW_TO_STRUCT]"@,
        row_fields(struct_columns(columns, m.return_type@, t)),
    )
}

/// Every mapper statement of the table parses.
pub open spec fn mappers_parse(t: TableInfo) -> bool {
    forall|i: int| 0 <= i < t.mappers@.len() ==> mapper_sql_ok(#[trigger] t.mappers@[i].sql@)
}

/// The functions generated for the table's first `cs.len()` mappers, the
/// `i`-th given the columns `cs[i]`.
pub open spec fn mappers_src(t: TableInfo, cs: Seq<Seq<Seq<char>>>) -> Seq<char>
    decreases cs.len(),
{
    if cs.len() == 0 {
        seq![]
    } else {
        mappers_src(t, cs.drop_last()) + mapper_src(t.mappers@[cs.len() - 1], t, cs.last())
    }
}

/// The columns selected by each of the table's mapper statements.
pub open spec fn mapper_columns(t: TableInfo) -> Seq<Seq<Seq<char>>> {
    Seq::new(t.mappers@.len(), |i: int| select_columns(t.mappers@[i].sql@))
}

// ---------------------------------------------------------------------------
// Executable generation
// ---------------------------------------------------------------------------

fn is_param_char_exec(c: char) -> (r: bool)
    ensures
        r == is_param_char(c),
{
    ('a' <= c && c <= 'z') || ('A' <= c && c <= 'Z') || ('0' <= c && c <= '9') || c == '_'
}

fn params_of(s: &[char]) -> (r: Vec<Vec<char>>)
    ensures
        views(r@) == sql_params(s@),
{
    let mut r: Vec<Vec<char>> = Vec::new();
    let mut i: usize = 0;
    while i < s.len()
        invariant
            i <= s@.len(),
            views(r@) + params_from(s@, i as int) == sql_params(s@),
        decreases s.len() - i,
    {
        if s[i] == ':' {
            let start = i + 1;
            let mut end = start;
            proof {
                lemma_param_end(s@, start as int);
            }
            while end < s.len() && is_param_char_exec(s[end])
                invariant
                    start <= end <= s@.len(),
                    param_end(s@, start as int) == param_end(s@, end as int),
                decreases s.len() - end,
            {
                end = end + 1;
            }
            if end > start {
                let piece = slice_exec(s, start, end);
                let ghost before = views(r@);
                r.push(piece);
                assert(views(r@) =~= before.push(piece@));
                assert(before + params_from(s@, i as int) =~= before.push(piece@) + params_from(
                    s@,
                    end as int,
                ));
                i = end;
                continue;
            }
        }
        i = i + 1;
    }
    r
}

fn marks_of(s: &[char]) -> (r: Vec<char>)
    ensures
        r@ == sql_with_marks(s@),
{
    let mut r: Vec<char> = Vec::new();
    let mut i: usize = 0;
    assert(r@ + marks_from(s@, 0) =~= sql_with_marks(s@));
    while i < s.len()
        invariant
            i <= s@.len(),
            r@ + marks_from(s@, i as int) == sql_with_marks(s@),
        decreases s.len() - i,
    {
        if s[i] == ':' {
            let start = i + 1;
            let mut end = start;
            proof {
                lemma_param_end(s@, start as int);
            }
            while end < s.len() && is_param_char_exec(s[end])
                invariant
                    start <= end <= s@.len(),
                    param_end(s@, start as int) == param_end(s@, end as int),
                decreases s.len() - end,
            {
                end = end + 1;
            }
            if end > start {
                let ghost before = r@;
                r.push('?');
                assert(before + marks_from(s@, i as int) =~= r@ + marks_from(s@, end as int));
                i = end;
                continue;
            }
        }
        let ghost before = r@;
        r.push(s[i]);
        assert(before + marks_from(s@, i as int) =~= r@ + marks_from(s@, i + 1));
        i = i + 1;
    }
    assert(r@ =~= sql_with_marks(s@));
    r
}

fn row_fields_exec(names: &Vec<Vec<char>>) -> (r: Vec<char>)
    ensures
        r@ == row_fields(views(names@)),
{
    let mut r: Vec<char> = Vec::new();
    let mut i: usize = 0;
    while i < names.len()
        invariant
            i <= names@.len(),
            r@ == row_fields(views(names@).take(i as int)),
        decreases names.len() - i,
    {
        append_chars(&mut r, &names[i]);
        append_str(&mut r, ":row.get(");
        append_chars(&mut r, &dec_exec(i as u64));
        append_str(&mut r, ")?,");
        assert(views(names@).take(i + 1).drop_last() =~= views(names@).take(i as int));
        assert(views(names@).take(i + 1).last() == names@[i as int]@);
        i = i + 1;
    }
    assert(views(names@).take(names@.len() as int) =~= views(names@));
    r
}

fn struct_columns_exec(columns: &Vec<String>, return_type: &[char], t: &TableInfo) -> (r: Vec<Vec<char>>)
    ensures
        views(r@) == struct_columns(columns@.map_values(|s: String| s@), return_type@, *t),
{
    let ghost cv = columns@.map_values(|s: String| s@);
    let entity = chars_of(t.get_entity_name().as_str());
    let star = chars_of("*");
    let mut r: Vec<Vec<char>> = Vec::new();
    let mut i: usize = 0;
    while i < columns.len()
        invariant
            i <= columns@.len(),
            cv == columns@.map_values(|s: String| s@),
            entity@ == entity_of(*t),
            star@ == "*"@,
            views(r@) == struct_columns(cv.take(i as int), return_type@, *t),
        decreases columns.len() - i,
    {
        assert(cv.take(i + 1).drop_last() =~= cv.take(i as int));
        assert(cv.take(i + 1).last() == columns@[i as int]@);
        let c = chars_of(columns[i].as_str());
        if ends_with_exec(&c, &star) {
            if crate::text::chars_eq(return_type, &entity) {
                let names = crate::make_dao::table_info::column_parts(&ColumnPart::Name, &t.columns);
                let ghost before = views(r@);
                let ghost nv = names@;
                let mut names = names;
                r.append(&mut names);
                assert(views(r@) =~= before + views(nv));
            }
        } else {
            let ghost before = views(r@);
            r.push(c);
            assert(views(r@) =~= before.push(c@));
        }
        i = i + 1;
    }
    assert(cv.take(columns@.len() as int) =~= cv);
    r
}

impl MapperInfo {
    /// The parameter names of a SQL text: each `:` followed by a run of
    /// ASCII letters, digits and underscores gives that run, left to right.
    pub fn extract_params(sql: &str) -> (r: Vec<String>)
        ensures
            r@.map_values(|s: String| s@) == sql_params(sql@),
    {
        let ps = params_of(&chars_of(sql));
        let mut r: Vec<String> = Vec::new();
        let mut i: usize = 0;
        while i < ps.len()
            invariant
                i <= ps@.len(),
                r@.map_values(|s: String| s@) == views(ps@).take(i as int),
            decreases ps.len() - i,
        {
            let ghost before = r@.map_values(|s: String| s@);
            let item = string_of(&ps[i]);
            r.push(item);
            assert(r@.map_values(|s: String| s@) =~= before.push(ps@[i as int]@));
            assert(views(ps@).take(i + 1) =~= views(ps@).take(i as int).push(ps@[i as int]@));
            i = i + 1;
        }
        assert(views(ps@).take(ps@.len() as int) =~= views(ps@));
        r
    }

    /// The function generated for this mapper given the columns its
    /// statement selects: the template of its statement kind with the
    /// function name, parameters, `?`-placeholder SQL, entity and the
    /// row-to-struct field list filled in.
    pub fn render_mapper_source(&self, table: &TableInfo, columns: &Vec<String>) -> (r: String)
        ensures
            r@ == mapper_src(*self, *table, columns@.map_values(|s: String| s@)),
    {
        let sql = chars_of(self.sql.as_str());
        let ps = params_of(&sql);
        let sql_q = marks_of(&sql);
        let entity = chars_of(table.get_entity_name().as_str());
        let fields = struct_columns_exec(columns, &chars_of(self.return_type.as_str()), table);
        let row = row_fields_exec(&fields);
        let tpl: &str = match self.crud_type {
            CrudType::Read => if self.is_list {
                MAPPER_LIST_TEMPLATE
            } else {
                MAPPER_ONE_TEMPLATE
            },
            CrudType::Update | CrudType::Delete | CrudType::Create => MAPPER_EXECUTE_TEMPLATE,
            CrudType::Unknown => "",
        };
        proof {
            reveal_strlit("");
            reveal_strlit("[FUNC_NAME]");
            reveal_strlit("[FUNC_PARAMS]");
            reveal_strlit("[SQL_PARAM]");
            reveal_strlit("[RETURN_TYPE]");
            reveal_strlit("[SQL]");
            reveal_strlit("[ENTITY]");
            reveal_strlit("[ROW_TO_STRUCT]");
        }
        assert(tpl@ == mapper_template(*self));
        let a = replace_str(&chars_of(tpl), "[FUNC_NAME]", &chars_of(self.name.as_str()));
        let b = replace_str(&a, "[FUNC_PARAMS]", &chars_of(self.params_str.as_str()));
        let c = replace_str(&b, "[SQL_PARAM]", &join_exec(&ps, &chars_of(", ")));
        let d = replace_str(&c, "[RETURN_TYPE]", &chars_of(self.return_type.as_str()));
        let e = replace_str(&d, "[SQL]", &sql_q);
        let f = replace_str(&e, "[ENTITY]", &entity);
        let g = replace_str(&f, "[ROW_TO_STRUCT]", &row);
        string_of(&g)
    }

    /// The function generated for this mapper of a table (see
    /// [`MapperInfo::render_mapper_source`]), with the columns that the
    /// statement selects according to [`MapperInfo::extract_columns`]. The
    /// statement must parse.
    pub fn make_mapper_source(&self, table: &TableInfo) -> (r: String)
        requires
            mapper_sql_ok(self.sql@),
        ensures
            r@ == mapper_src(*self, *table, select_columns(self.sql@)),
    {
        let columns = MapperInfo::extract_columns(self.sql.as_str());
        self.render_mapper_source(table, &columns)
    }

    /// [`MapperInfo::make_mapper_source`] when the statement parses, else `None`.
    pub fn try_make_mapper_source(&self, table: &TableInfo) -> (r: Option<String>)
        ensures
            r is Some == mapper_sql_ok(self.sql@),
            r matches Some(s) ==> s@ == mapper_src(*self, *table, select_columns(self.sql@)),
    {
        if sql_parses(self.sql.as_str()) {
            Some(self.make_mapper_source(table))
        } else {
            None
        }
    }
}

/// The function generated for a mapper of a known statement kind is never
/// empty: a query returns a row or a list, anything else executes.
pub proof fn lemma_known_kind_generates(m: MapperInfo, t: TableInfo, columns: Seq<Seq<char>>)
    requires
        !(m.crud_type is Unknown),
    ensures
        mapper_src(m, t, columns).len() > 0,
        m.crud_type is Read ==> mapper_template(m) == (if m.is_list {
            MAPPER_LIST_TEMPLATE@
        } else {
            MAPPER_ONE_TEMPLATE@
        }),
        !(m.crud_type is Read) ==> mapper_template(m) == MAPPER_EXECUTE_TEMPLATE@,
{
    reveal_strlit(r##"
                    pub fn [FUNC_NAME](conn: &rusqlite::Connection, [FUNC_PARAMS]) -> Result<usize, rusqlite::Error> {
                        const SQL: &str = r#"[SQL]"#;
                        conn.execute(SQL, rusqlite::params!([SQL_PARAM]))
                    }
                "##);
    reveal_strlit(r###"
                    pub fn [FUNC_NAME](conn: &rusqlite::Connection, [FUNC_PARAMS]) -> Result<Vec<[RETURN_TYPE]>, rusqlite::Error> {
                        const SQL: &str = r#"[SQL]"#;
                        let mut stmt = conn.prepare(SQL)?;
                        stmt.query_map([[SQL_PARAM]], |row| {
                            Ok([ENTITY] {
                                [ROW_TO_STRUCT]
                                ..Default::default()
                            })
                        })?
                        .collect()
                    }"###);
    reveal_strlit(r###"
                    pub fn [FUNC_NAME](conn: &rusqlite::Connection, [FUNC_PARAMS]) -> Result<[RETURN_TYPE], rusqlite::Error> {
                        const SQL: &str = r#"[SQL]"#;
                        let mut stmt = conn.prepare(SQL)?;
                        stmt.query_one(rusqlite::params!([SQL_PARAM]), |row| {
                            Ok([ENTITY] {
                                [ROW_TO_STRUCT]
                                ..Default::default()
                            })
                        })
                    }"###);
    reveal_strlit("[FUNC_NAME]");
    reveal_strlit("[FUNC_PARAMS]");
    reveal_strlit("[SQL_PARAM]");
    reveal_strlit("[RETURN_TYPE]");
    reveal_strlit("[SQL]");
    reveal_strlit("[ENTITY]");
    reveal_strlit("[ROW_TO_STRUCT]");
    assert(mapper_template(m).len() > 0 && mapper_template(m)[0] == '\n');
    assert forall|s: Seq<char>, pat: Seq<char>, rep: Seq<char>|
        pat.len() > 0 && s.len() > 0 && s[0] != pat[0] implies #[trigger] replace_all(
        s,
        pat,
        rep,
    ).len() > 0 && replace_all(s, pat, rep)[0] == s[0] by {
        lemma_replace_keeps_first(s, pat, rep);
    }
}

} // verus!
