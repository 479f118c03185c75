//! The DAO source file of each table: all generated pieces in order, under a
//! generation-time header, checked and laid out as a Rust file.
use crate::make_dao::mapper_info::{
    mapper_columns, mapper_sql_ok, mappers_parse, mappers_src, sql_parses,
};
use crate::make_dao::table_info::{
    delete_src, entity_src, insert_src, ColumnInfo, select_all_src, select_one_src, set_delete_src,
    update_src, TableInfo,
};
use crate::make_dao::templates::{SET_DELETE_IGNORE_VERSION_TEMPLATE, SET_DELETE_TEMPLATE};
use crate::make_dao::mapper_info::{select_columns, sql_params, MapperInfo};
use crate::text::{
    append_str, chars_eq, chars_of, contains, contains_exec, ends_with, ends_with_exec, is_ascii_alnum,
    split_exec, split_on, string_of,
};
use vstd::prelude::*;

verus! {

/// Whether `syn` parses the text as a Rust source file.
pub uninterp spec fn rust_file_parses(src: Seq<char>) -> bool;

/// The text that `prettyplease::unparse` lays out from the file that `syn`
/// parses out of a source text.
pub uninterp spec fn rust_layout(src: Seq<char>) -> Seq<char>;

/// `syn::parse_str::<syn::File>` and, when it succeeds,
/// `prettyplease::unparse` of the file: `None` exactly when syn does not
/// parse the text, else the laid-out text, a function of the source text
/// alone (named [`rust_layout`]; the syntax tree between the two calls is
/// an outside value with no view, so only the text can be named). The text
/// must be the source of a plain table ([`plain_table`]): `prettyplease`
/// (without its `verbatim` feature) panics on what syn keeps verbatim, such
/// as `fn f();`, and a plain table's source holds none of it.
#[verifier::external_body]
fn layout_rust(src: &str) -> (r: Option<String>)
    requires
        exists|t: TableInfo, stamp: Seq<char>|
            mappers_parse(t) && plain_table(t) && no_break(stamp) && src@ == #[trigger] table_text(
                t,
                stamp,
            ),
    ensures
        r is Some == rust_file_parses(src@),
        r matches Some(t) ==> t@ == rust_layout(src@),
{
    syn::parse_str::<syn::File>(src).ok().map(|f| prettyplease::unparse(&f))
}

/// `chrono::Local::now().to_rfc3339()`: the local time as RFC 3339 text,
/// which has no line break. Which time is left to the clock.
#[verifier::external_body]
fn local_time_rfc3339() -> (r: String)
    ensures
        no_break(r@),
{
    chrono::Local::now().to_rfc3339()
}

// ---------------------------------------------------------------------------
// Texts that syn and prettyplease take whole
// ---------------------------------------------------------------------------

/// A Rust keyword (strict, reserved or contextual) or `_`.
pub open spec fn is_keyword(w: Seq<char>) -> bool {
    w == "as"@ ||
    w == "break"@ ||
    w == "const"@ ||
    w == "continue"@ ||
    w == "crate"@ ||
    w == "else"@ ||
    w == "enum"@ ||
    w == "extern"@ ||
    w == "false"@ ||
    w == "fn"@ ||
    w == "for"@ ||
    w == "if"@ ||
    w == "impl"@ ||
    w == "in"@ ||
    w == "let"@ ||
    w == "loop"@ ||
    w == "match"@ ||
    w == "mod"@ ||
    w == "move"@ ||
    w == "mut"@ ||
    w == "pub"@ ||
    w == "ref"@ ||
    w == "return"@ ||
    w == "self"@ ||
    w == "Self"@ ||
    w == "static"@ ||
    w == "struct"@ ||
    w == "super"@ ||
    w == "trait"@ ||
    w == "true"@ ||
    w == "type"@ ||
    w == "unsafe"@ ||
    w == "use"@ ||
    w == "where"@ ||
    w == "while"@ ||
    w == "async"@ ||
    w == "await"@ ||
    w == "dyn"@ ||
    w == "abstract"@ ||
    w == "become"@ ||
    w == "box"@ ||
    w == "do"@ ||
    w == "final"@ ||
    w == "macro"@ ||
    w == "override"@ ||
    w == "priv"@ ||
    w == "typeof"@ ||
    w == "unsized"@ ||
    w == "virtual"@ ||
    w == "yield"@ ||
    w == "try"@ ||
    w == "union"@ ||
    w == "gen"@ ||
    w == "safe"@ ||
    w == "raw"@ ||
    w == "auto"@ ||
    w == "default"@ ||
    w == "builtin"@ ||
    w == "macro_rules"@ ||
    w == "_"@
}

fn is_keyword_exec(w: &[char]) -> (r: bool)
    ensures
        r == is_keyword(w@),
{
    chars_eq(w, &chars_of("as")) || chars_eq(w, &chars_of("break")) || chars_eq(w, &chars_of("const")) || chars_eq(w, &chars_of("continue")) || chars_eq(w, &chars_of("crate")) || chars_eq(w, &chars_of("else")) || chars_eq(w, &chars_of("enum")) || chars_eq(w, &chars_of("extern")) || chars_eq(w, &chars_of("false")) || chars_eq(w, &chars_of("fn")) || chars_eq(w, &chars_of("for")) || chars_eq(w, &chars_of("if")) || chars_eq(w, &chars_of("impl")) || chars_eq(w, &chars_of("in")) || chars_eq(w, &chars_of("let")) || chars_eq(w, &chars_of("loop")) || chars_eq(w, &chars_of("match")) || chars_eq(w, &chars_of("mod")) || chars_eq(w, &chars_of("move")) || chars_eq(w, &chars_of("mut")) || chars_eq(w, &chars_of("pub")) || chars_eq(w, &chars_of("ref")) || chars_eq(w, &chars_of("return")) || chars_eq(w, &chars_of("self")) || chars_eq(w, &chars_of("Self")) || chars_eq(w, &chars_of("static")) || chars_eq(w, &chars_of("struct")) || chars_eq(w, &chars_of("super")) || chars_eq(w, &chars_of("trait")) || chars_eq(w, &chars_of("true")) || chars_eq(w, &chars_of("type")) || chars_eq(w, &chars_of("unsafe")) || chars_eq(w, &chars_of("use")) || chars_eq(w, &chars_of("where")) || chars_eq(w, &chars_of("while")) || chars_eq(w, &chars_of("async")) || chars_eq(w, &chars_of("await")) || chars_eq(w, &chars_of("dyn")) || chars_eq(w, &chars_of("abstract")) || chars_eq(w, &chars_of("become")) || chars_eq(w, &chars_of("box")) || chars_eq(w, &chars_of("do")) || chars_eq(w, &chars_of("final")) || chars_eq(w, &chars_of("macro")) || chars_eq(w, &chars_of("override")) || chars_eq(w, &chars_of("priv")) || chars_eq(w, &chars_of("typeof")) || chars_eq(w, &chars_of("unsized")) || chars_eq(w, &chars_of("virtual")) || chars_eq(w, &chars_of("yield")) || chars_eq(w, &chars_of("try")) || chars_eq(w, &chars_of("union")) || chars_eq(w, &chars_of("gen")) || chars_eq(w, &chars_of("safe")) || chars_eq(w, &chars_of("raw")) || chars_eq(w, &chars_of("auto")) || chars_eq(w, &chars_of("default")) || chars_eq(w, &chars_of("builtin")) || chars_eq(w, &chars_of("macro_rules")) || chars_eq(w, &chars_of("_"))
}

/// A char of a plain name: ASCII letter, digit or `_`.
pub open spec fn is_word_char(c: char) -> bool {
    is_ascii_alnum(c) || c == '_'
}

/// A plain name: an ASCII letter or `_` first, then letters, digits and
/// `_`, and no keyword.
pub open spec fn plain_word(w: Seq<char>) -> bool {
    &&& w.len() > 0
    &&& (('a' <= w[0] && w[0] <= 'z') || ('A' <= w[0] && w[0] <= 'Z') || w[0] == '_')
    &&& forall|i: int| 0 <= i < w.len() ==> is_word_char(#[trigger] w[i])
    &&& !is_keyword(w)
}

/// A char that may stand in a parameter list or a type: a name char,
/// `:`, `<`, `>`, `&`, `,` or a space.
pub open spec fn is_code_char(c: char) -> bool {
    is_word_char(c) || c == ':' || c == '<' || c == '>' || c == '&' || c == ',' || c == ' '
}

/// The text with every char that is not a name char turned into a space.
pub open spec fn blank_non_words(s: Seq<char>) -> Seq<char> {
    s.map_values(|c: char| if is_word_char(c) { c } else { ' ' })
}

/// The words of a text: its runs of name chars (with empty pieces between
/// neighbouring separators).
pub open spec fn words_of(s: Seq<char>) -> Seq<Seq<char>> {
    split_on(blank_non_words(s), seq![' '])
}

/// A parameter list or type made of names, `:`, `<`, `>`, `&`, `,` and
/// spaces, with no keyword among its words.
pub open spec fn code_text(s: Seq<char>) -> bool {
    &&& forall|i: int| 0 <= i < s.len() ==> is_code_char(#[trigger] s[i])
    &&& forall|k: int| 0 <= k < words_of(s).len() ==> !is_keyword(#[trigger] words_of(s)[k])
}

/// No line break in the text.
pub open spec fn no_break(s: Seq<char>) -> bool {
    forall|i: int| 0 <= i < s.len() ==> #[trigger] s[i] != '\n' && s[i] != '\r'
}

/// A mapper whose pieces enter the generated source only as plain names,
/// plain parameter lists and types, and SQL that cannot close the raw
/// string around it.
pub open spec fn plain_mapper(m: MapperInfo) -> bool {
    &&& plain_word(m.name@)
    &&& code_text(m.params_str@)
    &&& code_text(m.return_type@)
    &&& !contains(m.sql@, "\"#"@)
    &&& forall|k: int| 0 <= k < sql_params(m.sql@).len() ==> plain_word(#[trigger] sql_params(m.sql@)[k])
    &&& forall|k: int|
        0 <= k < select_columns(m.sql@).len() ==> ends_with(#[trigger] select_columns(m.sql@)[k], "*"@)
            || plain_word(select_columns(m.sql@)[k])
}

/// A column with a plain name and a one-line comment.
pub open spec fn plain_column(c: ColumnInfo) -> bool {
    plain_word(c.name@) && no_break(c.comment@)
}

/// A table whose pieces enter the generated source only as plain names,
/// one-line comments and plain mappers. The source of such a table is the
/// templates' token structure with names and simple types filled in, which
/// syn parses without keeping anything verbatim.
pub open spec fn plain_table(t: TableInfo) -> bool {
    &&& plain_word(t.name@)
    &&& forall|i: int| 0 <= i < t.columns@.len() ==> plain_column(#[trigger] t.columns@[i])
    &&& forall|i: int| 0 <= i < t.mappers@.len() ==> plain_mapper(#[trigger] t.mappers@[i])
}

fn plain_word_exec(w: &[char]) -> (r: bool)
    ensures
        r == plain_word(w@),
{
    if w.len() == 0 {
        return false;
    }
    let c0 = w[0];
    if !(('a' <= c0 && c0 <= 'z') || ('A' <= c0 && c0 <= 'Z') || c0 == '_') {
        return false;
    }
    let mut i: usize = 0;
    while i < w.len()
        invariant
            i <= w@.len(),
            forall|j: int| 0 <= j < i ==> is_word_char(#[trigger] w@[j]),
        decreases w.len() - i,
    {
        let c = w[i];
        if !(('a' <= c && c <= 'z') || ('A' <= c && c <= 'Z') || ('0' <= c && c <= '9') || c == '_') {
            assert(!is_word_char(w@[i as int]));
            return false;
        }
        i = i + 1;
    }
    !is_keyword_exec(w)
}

fn code_text_exec(s: &[char]) -> (r: bool)
    ensures
        r == code_text(s@),
{
    let mut b: Vec<char> = Vec::new();
    let mut i: usize = 0;
    while i < s.len()
        invariant
            i <= s@.len(),
            b@ == blank_non_words(s@).take(i as int),
            forall|j: int| 0 <= j < i ==> is_code_char(#[trigger] s@[j]),
        decreases s.len() - i,
    {
        let c = s[i];
        let word = ('a' <= c && c <= 'z') || ('A' <= c && c <= 'Z') || ('0' <= c && c <= '9') || c
            == '_';
        if !(word || c == ':' || c == '<' || c == '>' || c == '&' || c == ',' || c == ' ') {
            assert(!is_code_char(s@[i as int]));
            return false;
        }
        b.push(if word { c } else { ' ' });
        assert(b@ =~= blank_non_words(s@).take(i + 1));
        i = i + 1;
    }
    assert(b@ =~= blank_non_words(s@));
    let sep: Vec<char> = vec![' '];
    assert(sep@ =~= seq![' ']);
    let ws = split_exec(&b, &sep);
    let ghost wv = ws@.map_values(|v: Vec<char>| v@);
    assert(wv == words_of(s@));
    let mut k: usize = 0;
    while k < ws.len()
        invariant
            k <= ws@.len(),
            wv == ws@.map_values(|v: Vec<char>| v@),
            wv == words_of(s@),
            forall|q: int| 0 <= q < k ==> !is_keyword(#[trigger] words_of(s@)[q]),
        decreases ws.len() - k,
    {
        assert(wv[k as int] == ws@[k as int]@);
        if is_keyword_exec(&ws[k]) {
            return false;
        }
        k = k + 1;
    }
    true
}

fn no_break_exec(s: &[char]) -> (r: bool)
    ensures
        r == no_break(s@),
{
    let mut i: usize = 0;
    while i < s.len()
        invariant
            i <= s@.len(),
            forall|j: int| 0 <= j < i ==> #[trigger] s@[j] != '\n' && s@[j] != '\r',
        decreases s.len() - i,
    {
        if s[i] == '\n' || s[i] == '\r' {
            return false;
        }
        i = i + 1;
    }
    true
}

fn plain_mapper_exec(m: &MapperInfo) -> (r: bool)
    requires
        mapper_sql_ok(m.sql@),
    ensures
        r == plain_mapper(*m),
{
    if !plain_word_exec(&chars_of(m.name.as_str())) || !code_text_exec(&chars_of(m.params_str.as_str()))
        || !code_text_exec(&chars_of(m.return_type.as_str())) {
        return false;
    }
    if contains_exec(&chars_of(m.sql.as_str()), &chars_of("\"#")) {
        return false;
    }
    let ps = MapperInfo::extract_params(m.sql.as_str());
    let ghost pv = ps@.map_values(|s: String| s@);
    let mut k: usize = 0;
    while k < ps.len()
        invariant
            k <= ps@.len(),
            pv == ps@.map_values(|s: String| s@),
            pv == sql_params(m.sql@),
            forall|q: int| 0 <= q < k ==> plain_word(#[trigger] sql_params(m.sql@)[q]),
        decreases ps.len() - k,
    {
        assert(pv[k as int] == ps@[k as int]@);
        if !plain_word_exec(&chars_of(ps[k].as_str())) {
            return false;
        }
        k = k + 1;
    }
    let cs = MapperInfo::extract_columns(m.sql.as_str());
    let ghost cv = cs@.map_values(|s: String| s@);
    proof {
        reveal_strlit("*");
    }
    let star = chars_of("*");
    let mut k: usize = 0;
    while k < cs.len()
        invariant
            k <= cs@.len(),
            cv == cs@.map_values(|s: String| s@),
            cv == select_columns(m.sql@),
            star@ == "*"@,
            forall|q: int|
                0 <= q < k ==> ends_with(#[trigger] select_columns(m.sql@)[q], "*"@) || plain_word(
                    select_columns(m.sql@)[q],
                ),
        decreases cs.len() - k,
    {
        assert(cv[k as int] == cs@[k as int]@);
        let c = chars_of(cs[k].as_str());
        if !ends_with_exec(&c, &star) && !plain_word_exec(&c) {
            return false;
        }
        k = k + 1;
    }
    true
}

fn plain_table_exec(t: &TableInfo) -> (r: bool)
    requires
        mappers_parse(*t),
    ensures
        r == plain_table(*t),
{
    if !plain_word_exec(&chars_of(t.name.as_str())) {
        return false;
    }
    let mut i: usize = 0;
    while i < t.columns.len()
        invariant
            i <= t.columns@.len(),
            plain_word(t.name@),
            forall|q: int| 0 <= q < i ==> plain_column(#[trigger] t.columns@[q]),
        decreases t.columns.len() - i,
    {
        let c = &t.columns[i];
        if !plain_word_exec(&chars_of(c.name.as_str())) || !no_break_exec(&chars_of(c.comment.as_str())) {
            return false;
        }
        assert(plain_column(t.columns@[i as int]));
        i = i + 1;
    }
    let mut i: usize = 0;
    while i < t.mappers.len()
        invariant
            i <= t.mappers@.len(),
            mappers_parse(*t),
            plain_word(t.name@),
            forall|q: int| 0 <= q < t.columns@.len() ==> plain_column(#[trigger] t.columns@[q]),
            forall|q: int| 0 <= q < i ==> plain_mapper(#[trigger] t.mappers@[q]),
        decreases t.mappers.len() - i,
    {
        assert(mapper_sql_ok(t.mappers@[i as int].sql@));
        if !plain_mapper_exec(&t.mappers[i]) {
            return false;
        }
        i = i + 1;
    }
    true
}

/// The DAO source of a table, the mapper functions generated with the
/// columns `cs`: entity, insert, select-one, select-all, update, soft
/// delete, soft delete ignoring the version, delete, then the mapper
/// functions.
pub open spec fn dao_src(t: TableInfo, cs: Seq<Seq<Seq<char>>>) -> Seq<char> {
    entity_src(t) + insert_src(t) + select_one_src(t) + select_all_src(t) + update_src(t)
        + set_delete_src(t, true, SET_DELETE_TEMPLATE@) + set_delete_src(
        t,
        false,
        SET_DELETE_IGNORE_VERSION_TEMPLATE@,
    ) + delete_src(t) + mappers_src(t, cs)
}

/// The header line naming the generation time.
pub open spec fn header(stamp: Seq<char>) -> Seq<char> {
    "// Generated at "@ + stamp + "\n"@
}

/// The unformatted text of a table's DAO file generated at time `stamp`.
pub open spec fn table_text(t: TableInfo, stamp: Seq<char>) -> Seq<char> {
    header(stamp) + dao_src(t, mapper_columns(t))
}

/// The unformatted DAO source of a table. Every mapper statement must parse.
pub fn dao_source(table: &TableInfo) -> (r: String)
    requires
        mappers_parse(*table),
    ensures
        r@ == dao_src(*table, mapper_columns(*table)),
{
    let mut out: Vec<char> = Vec::new();
    append_str(&mut out, table.make_entity_src().as_str());
    append_str(&mut out, table.make_insert_func().as_str());
    append_str(&mut out, table.make_select_one_func().as_str());
    append_str(&mut out, table.make_select_all_func().as_str());
    append_str(&mut out, table.make_update_func().as_str());
    append_str(&mut out, table.make_set_delete_func().as_str());
    append_str(&mut out, table.make_set_delete_ignore_version_func().as_str());
    append_str(&mut out, table.make_delete_func().as_str());
    append_str(&mut out, table.make_mapper_func().as_str());
    assert(out@ =~= dao_src(*table, mapper_columns(*table)));
    string_of(&out)
}

/// The DAO source of a table under the header line with the given time.
/// Every mapper statement must parse.
pub fn file_source(table: &TableInfo, stamp: &str) -> (r: String)
    requires
        mappers_parse(*table),
    ensures
        r@ == table_text(*table, stamp@),
{
    let body = dao_source(table);
    let mut out: Vec<char> = chars_of("// Generated at ");
    append_str(&mut out, stamp);
    append_str(&mut out, "\n");
    append_str(&mut out, body.as_str());
    assert(out@ =~= table_text(*table, stamp@));
    string_of(&out)
}

/// A generated DAO file.
pub struct DaoFile {
    /// `<table>_dao.rs`.
    pub file_name: String,
    /// The formatted source.
    pub source: String,
}

/// Why no DAO file could be generated.
pub enum MakeError {
    /// A mapper statement of the table does not parse as SQL.
    InvalidMapperSql { table: String, mapper: String },
    /// The generated source of the table does not parse as Rust.
    InvalidSource { table: String },
    /// A name, parameter list, type, comment or statement of the table is
    /// not plain (see [`plain_table`]), so its source is not laid out.
    NotPlain { table: String },
}

/// The file name of a table's DAO source.
pub open spec fn dao_file_name(t: TableInfo) -> Seq<char> {
    t.name@ + "_dao.rs"@
}

/// The table's file was made at that time: its mapper statements parse,
/// it is plain, and its source parses as Rust.
pub open spec fn table_done(t: TableInfo, stamp: Seq<char>) -> bool {
    &&& mappers_parse(t)
    &&& plain_table(t)
    &&& rust_file_parses(table_text(t, stamp))
}

/// The table's mapper statements parse and it is plain, but its source
/// does not parse as Rust.
pub open spec fn source_fails(t: TableInfo, stamp: Seq<char>) -> bool {
    &&& mappers_parse(t)
    &&& plain_table(t)
    &&& !rust_file_parses(table_text(t, stamp))
}

/// `j` is the table's first mapper whose statement does not parse.
pub open spec fn first_bad(t: TableInfo, j: int) -> bool {
    &&& 0 <= j < t.mappers@.len()
    &&& !mapper_sql_ok(t.mappers@[j].sql@)
    &&& forall|k: int| 0 <= k < j ==> mapper_sql_ok(#[trigger] t.mappers@[k].sql@)
}

/// The file made of a table at time `stamp`.
pub open spec fn file_made(f: DaoFile, t: TableInfo, stamp: Seq<char>) -> bool {
    &&& f.file_name@ == dao_file_name(t)
    &&& f.source@ == rust_layout(table_text(t, stamp))
}

/// The tables before position `i` were all made.
pub open spec fn done_before(tables: Seq<TableInfo>, stamp: Seq<char>, i: int) -> bool {
    forall|k: int| 0 <= k < i ==> table_done(#[trigger] tables[k], stamp)
}

/// What a run over the tables makes: the files of the tables made, in
/// order, and the error that stopped it, if one did.
pub struct MakeRun {
    /// The files made, one per table from the first on.
    pub files: Vec<DaoFile>,
    /// Why the run stopped before the end.
    pub error: Option<MakeError>,
}

/// What a run over the tables at time `stamp` gives: the tables are made in
/// order, each file named `<table>_dao.rs` and holding its text laid out by
/// `prettyplease`, until one fails; the run then stops with its error, the
/// files of the tables before it kept: the first mapper whose statement
/// does not parse, a table that is not plain, or a source that does not
/// parse as Rust.
pub open spec fn make_outcome(tables: Seq<TableInfo>, stamp: Seq<char>, r: MakeRun) -> bool {
    let n = r.files@.len() as int;
    &&& n <= tables.len()
    &&& done_before(tables, stamp, n)
    &&& forall|i: int| 0 <= i < n ==> #[trigger] file_made(r.files@[i], tables[i], stamp)
    &&& match r.error {
        None => n == tables.len(),
        Some(MakeError::InvalidMapperSql { table, mapper }) => n < tables.len() && exists|j: int|
            #[trigger] first_bad(tables[n], j) && table@ == tables[n].name@ && mapper@
                == tables[n].mappers@[j].name@,
        Some(MakeError::InvalidSource { table }) => n < tables.len() && source_fails(tables[n], stamp)
            && table@ == tables[n].name@,
        Some(MakeError::NotPlain { table }) => n < tables.len() && mappers_parse(tables[n])
            && !plain_table(tables[n]) && table@ == tables[n].name@,
    }
}

/// The first mapper of the table whose statement does not parse, if any.
fn first_bad_mapper(table: &TableInfo) -> (r: Option<usize>)
    ensures
        r is None == mappers_parse(*table),
        r matches Some(j) ==> first_bad(*table, j as int),
{
    let mut j: usize = 0;
    while j < table.mappers.len()
        invariant
            j <= table.mappers@.len(),
            forall|k: int| 0 <= k < j ==> mapper_sql_ok(#[trigger] table.mappers@[k].sql@),
        decreases table.mappers.len() - j,
    {
        if !sql_parses(table.mappers[j].sql.as_str()) {
            return Some(j);
        }
        j = j + 1;
    }
    None
}

/// The DAO file of each table, in order, generated at the given time (a
/// text without line breaks): the header, the DAO source, laid out by
/// `prettyplease`. The first table with a mapper statement that does not
/// parse, that is not plain, or whose source does not parse as Rust, stops
/// the run with the matching error; the files of the tables before it are
/// kept. (The generator run this serves panicked at that point; the error
/// is handed to the caller, which writes the files made and then panics.)
pub fn make(tables: &Vec<TableInfo>, stamp: &str) -> (r: MakeRun)
    requires
        no_break(stamp@),
    ensures
        make_outcome(tables@, stamp@, r),
        (exists|i: int| 0 <= i < tables@.len() && !mappers_parse(#[trigger] tables@[i]))
            ==> r.error is Some,
{
    let mut files: Vec<DaoFile> = Vec::new();
    let mut i: usize = 0;
    while i < tables.len()
        invariant
            i <= tables@.len(),
            files@.len() == i,
            no_break(stamp@),
            done_before(tables@, stamp@, i as int),
            forall|k: int| 0 <= k < i ==> #[trigger] file_made(files@[k], tables@[k], stamp@),
        decreases tables.len() - i,
    {
        let table = &tables[i];
        match first_bad_mapper(table) {
            Some(j) => {
                let e = MakeError::InvalidMapperSql {
                    table: string_of(&chars_of(table.name.as_str())),
                    mapper: string_of(&chars_of(table.mappers[j].name.as_str())),
                };
                assert(first_bad(tables@[i as int], j as int));
                return MakeRun { files, error: Some(e) };
            },
            None => {},
        }
        if !plain_table_exec(table) {
            let e = MakeError::NotPlain { table: string_of(&chars_of(table.name.as_str())) };
            return MakeRun { files, error: Some(e) };
        }
        let src = file_source(table, stamp);
        assert(mappers_parse(*table) && plain_table(*table) && no_break(stamp@) && src@ == table_text(
            *table,
            stamp@,
        ));
        match layout_rust(src.as_str()) {
            Some(formatted) => {
                let mut name: Vec<char> = chars_of(table.name.as_str());
                append_str(&mut name, "_dao.rs");
                let ghost before = files@;
                files.push(DaoFile { file_name: string_of(&name), source: formatted });
                assert(table_done(tables@[i as int], stamp@));
                assert(file_made(files@[i as int], tables@[i as int], stamp@));
                assert forall|k: int| 0 <= k < i + 1 implies #[trigger] file_made(
                    files@[k],
                    tables@[k],
                    stamp@,
                ) by {
                    if k < i {
                        assert(files@[k] == before[k]);
                    }
                }
                assert forall|k: int| 0 <= k < i + 1 implies table_done(#[trigger] tables@[k], stamp@) by {
                    if k < i {
                        assert(table_done(tables@[k], stamp@));
                    }
                }
            },
            None => {
                assert(source_fails(tables@[i as int], stamp@));
                let e = MakeError::InvalidSource { table: string_of(&chars_of(table.name.as_str())) };
                return MakeRun { files, error: Some(e) };
            },
        }
        i = i + 1;
    }
    proof {
        assert forall|q: int| 0 <= q < tables@.len() implies mappers_parse(#[trigger] tables@[q]) by {
            assert(table_done(tables@[q], stamp@));
        }
    }
    MakeRun { files, error: None }
}

/// [`make`] at the current local time: the outcome of a run at some time.
pub fn make_now(tables: &Vec<TableInfo>) -> (r: MakeRun)
    ensures
        exists|stamp: Seq<char>| #[trigger] make_outcome(tables@, stamp, r),
        (exists|i: int| 0 <= i < tables@.len() && !mappers_parse(#[trigger] tables@[i]))
            ==> r.error is Some,
{
    let stamp = local_time_rfc3339();
    let r = make(tables, stamp.as_str());
    assert(make_outcome(tables@, stamp@, r));
    r
}

} // verus!
