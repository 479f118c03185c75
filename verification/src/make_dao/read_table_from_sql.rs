//! Table descriptions read from `CREATE TABLE` scripts.
use crate::make_dao::table_info::{ColumnInfo, TableInfo};
use crate::text::{
    chars_of, collapse_spaces, collapse_spaces_exec, contains, contains_exec, find,
    find_char_exec, find_exec, is_ascii_alnum, lemma_find, occurs_at, replace_all, replace_str, slice_exec,
    split_char, split_exec, starts_with, starts_with_exec, string_of, trim, trim_exec, upper,
    unicode_upper, unicode_upper_exec, upper_exec, views,
};
use vstd::prelude::*;

verus! {

// ---------------------------------------------------------------------------
// Specifications
// ---------------------------------------------------------------------------

/// The position of the first `c` in `s`, or the length of `s`.
pub open spec fn index_or_len(s: Seq<char>, c: char) -> int {
    match find(s, seq![c]) {
        Some(i) => i,
        None => s.len() as int,
    }
}

/// The smaller of two numbers.
pub open spec fn min(a: int, b: int) -> int {
    if a <= b {
        a
    } else {
        b
    }
}

/// Line endings `\r\n` and `\r` turned into `\n`.
pub open spec fn normalize_newlines(s: Seq<char>) -> Seq<char> {
    replace_all(replace_all(s, "\r\n"@, "\n"@), "\r"@, "\n"@)
}

/// The table name of a `CREATE TABLE` script: the first word after
/// `CREATE TABLE` (and after `IF NOT EXISTS` if present), ending before a
/// space, a line break or `(`; `None` without `CREATE TABLE` (found in upper
/// case).
pub open spec fn table_name_of(sql: Seq<char>) -> Option<Seq<char>> {
    let s = normalize_newlines(collapse_spaces(sql));
    match find(upper(s), "CREATE TABLE"@) {
        None => None,
        Some(i) => {
            let t = trim(s.skip(i + "CREATE TABLE"@.len()));
            let u = if starts_with(t, "IF NOT EXISTS"@) {
                trim(t.skip("IF NOT EXISTS"@.len() as int))
            } else {
                t
            };
            Some(u.take(min(min(index_or_len(u, ' '), index_or_len(u, '\n')), index_or_len(u, '('))))
        },
    }
}

/// A line split at its first `--`: the trimmed code and the trimmed comment.
pub open spec fn split_comment(line: Seq<char>) -> (Seq<char>, Seq<char>) {
    match find(line, "--"@) {
        Some(i) => (trim(line.take(i)), trim(line.skip(i + "--"@.len()))),
        None => (trim(line), Seq::<char>::empty()),
    }
}

/// The code of a column line with its runs of spaces collapsed.
pub open spec fn line_code(line: Seq<char>) -> Seq<char> {
    collapse_spaces(split_comment(line).0)
}

/// The column name: the code up to its first space.
pub open spec fn line_column_name(line: Seq<char>) -> Seq<char> {
    let l = line_code(line);
    l.take(index_or_len(l, ' '))
}

/// The code after the column name, trimmed.
pub open spec fn line_after_name(line: Seq<char>) -> Seq<char> {
    let l = line_code(line);
    trim(l.skip(index_or_len(l, ' ')))
}

/// Where the type ends: at the first space or comma after the name.
pub open spec fn line_type_end(line: Seq<char>) -> int {
    let r = line_after_name(line);
    min(index_or_len(r, ' '), index_or_len(r, ','))
}

/// The declared type of the column.
pub open spec fn line_data_type(line: Seq<char>) -> Seq<char> {
    line_after_name(line).take(line_type_end(line))
}

/// The constraints after the type, trimmed and in upper case.
pub open spec fn line_constraints(line: Seq<char>) -> Seq<char> {
    unicode_upper(trim(line_after_name(line).skip(line_type_end(line))))
}

/// A name made of ASCII letters, digits and underscores.
pub open spec fn is_identifier(name: Seq<char>) -> bool {
    forall|i: int| 0 <= i < name.len() ==> name[i] == '_' || is_ascii_alnum(#[trigger] name[i])
}

/// The line starts with a non-empty identifier.
pub open spec fn is_named_line(line: Seq<char>) -> bool {
    line_column_name(line).len() > 0 && is_identifier(line_column_name(line))
}

/// The line declares a column: it does not start a `CREATE` statement or
/// hold `CREATE TABLE`, and it starts with a non-empty identifier.
pub open spec fn is_column_line(line: Seq<char>) -> bool {
    let l = line_code(line);
    &&& !starts_with(unicode_upper(trim(l)), "CREATE "@)
    &&& !contains(unicode_upper(l), "CREATE TABLE"@)
    &&& is_named_line(line)
}

/// The column read from a line that declares one.
pub open spec fn column_of_line(c: ColumnInfo, line: Seq<char>) -> bool {
    let k = line_constraints(line);
    &&& c.name@ == line_column_name(line)
    &&& c.nick@.len() == 0
    &&& c.data_type@ == line_data_type(line)
    &&& c.is_primary_key == contains(k, "PRIMARY KEY"@)
    &&& c.is_nullable == !contains(k, "NOT NULL"@)
    &&& c.is_auto_increment == (contains(k, "AUTOINCREMENT"@) || contains(k, "AUTO_INCREMENT"@))
    &&& c.default_value is None
    &&& c.comment@ == split_comment(line).1
}

/// The lines that declare columns, in order.
pub open spec fn column_lines(lines: Seq<Seq<char>>) -> Seq<Seq<char>>
    decreases lines.len(),
{
    if lines.len() == 0 {
        seq![]
    } else {
        let rest = column_lines(lines.drop_last());
        if is_column_line(lines.last()) {
            rest.push(lines.last())
        } else {
            rest
        }
    }
}

/// The columns are those read from the given lines.
pub open spec fn columns_of_lines(cols: Seq<ColumnInfo>, lines: Seq<Seq<char>>) -> bool {
    let kept = column_lines(lines);
    &&& cols.len() == kept.len()
    &&& forall|i: int| 0 <= i < cols.len() ==> column_of_line(#[trigger] cols[i], kept[i])
}

/// The table read from a script: named by [`table_name_of`], with the columns
/// of its lines, no comment, nick or mappers.
pub open spec fn table_of_sql(t: TableInfo, sql: Seq<char>) -> bool {
    let s = normalize_newlines(sql);
    &&& table_name_of(s) == Some(t.name@)
    &&& t.nick@.len() == 0
    &&& t.comment@.len() == 0
    &&& t.mappers@.len() == 0
    &&& columns_of_lines(t.columns@, split_char(s, '\n'))
}

// ---------------------------------------------------------------------------
// Executable parsing
// ---------------------------------------------------------------------------

fn index_or_len_exec(s: &[char], c: char) -> (r: usize)
    ensures
        r == index_or_len(s@, c),
        r <= s@.len(),
{
    proof {
        lemma_find(s@, seq![c]);
    }
    match find_char_exec(s, c) {
        Some(i) => i,
        None => s.len(),
    }
}

fn normalize_newlines_exec(s: &[char]) -> (r: Vec<char>)
    ensures
        r@ == normalize_newlines(s@),
{
    proof {
        reveal_strlit("\r\n");
        reveal_strlit("\r");
    }
    let a = replace_str(s, "\r\n", &chars_of("\n"));
    replace_str(&a, "\r", &chars_of("\n"))
}

fn table_name_chars(sql: &[char]) -> (r: Option<Vec<char>>)
    ensures
        r matches Some(v) ==> table_name_of(sql@) == Some(v@),
        r is None ==> table_name_of(sql@) is None,
{
    let c = collapse_spaces_exec(sql);
    let s = normalize_newlines_exec(&c);
    let u = upper_exec(&s);
    let key = chars_of("CREATE TABLE");
    proof {
        reveal_strlit("CREATE TABLE");
        reveal_strlit("IF NOT EXISTS");
        lemma_find(u@, key@);
    }
    match find_exec(&u, &key) {
        None => None,
        Some(i) => {
            let n = s.len();
            assert(u@.len() == s@.len());
            assert(i + 12 <= n);
            let rest = slice_exec(&s, i + 12, n);
            assert(rest@ =~= s@.skip(i + "CREATE TABLE"@.len()));
            let t = trim_exec(&rest);
            let u2 = if starts_with_exec(&t, &chars_of("IF NOT EXISTS")) {
                let tail = slice_exec(&t, 13, t.len());
                assert(tail@ =~= t@.skip("IF NOT EXISTS"@.len() as int));
                trim_exec(&tail)
            } else {
                t
            };
            let sp = index_or_len_exec(&u2, ' ');
            let nl = index_or_len_exec(&u2, '\n');
            let op = index_or_len_exec(&u2, '(');
            let k0 = if sp <= nl {
                sp
            } else {
                nl
            };
            let k = if k0 <= op {
                k0
            } else {
                op
            };
            let name = slice_exec(&u2, 0, k);
            assert(name@ =~= u2@.take(k as int));
            Some(name)
        },
    }
}

/// The table name of a `CREATE TABLE` script, or `None` without
/// `CREATE TABLE`.
pub fn find_table_name(sql: String) -> (r: Option<String>)
    ensures
        r matches Some(n) ==> table_name_of(sql@) == Some(n@),
        r is None ==> table_name_of(sql@) is None,
{
    let s = chars_of(sql.as_str());
    match table_name_chars(&s) {
        Some(v) => Some(string_of(&v)),
        None => None,
    }
}

fn split_comment_exec(line: &[char]) -> (r: (Vec<char>, Vec<char>))
    ensures
        (r.0@, r.1@) == split_comment(line@),
{
    proof {
        reveal_strlit("--");
    }
    match find_exec(line, &chars_of("--")) {
        Some(i) => {
            proof {
                lemma_find(line@, "--"@);
            }
            let n = line.len();
            assert(i + 2 <= n);
            let code = slice_exec(line, 0, i);
            let comment = slice_exec(line, i + 2, n);
            assert(code@ =~= line@.take(i as int));
            assert(comment@ =~= line@.skip(i + "--"@.len()));
            (trim_exec(&code), trim_exec(&comment))
        },
        None => (trim_exec(line), Vec::new()),
    }
}

fn is_identifier_exec(name: &[char]) -> (r: bool)
    ensures
        r == is_identifier(name@),
{
    let mut i: usize = 0;
    while i < name.len()
        invariant
            i <= name@.len(),
            forall|j: int| 0 <= j < i ==> name@[j] == '_' || is_ascii_alnum(#[trigger] name@[j]),
        decreases name.len() - i,
    {
        let c = name[i];
        if !(c == '_' || ('a' <= c && c <= 'z') || ('A' <= c && c <= 'Z') || ('0' <= c && c <= '9')) {
            assert(!(name@[i as int] == '_' || is_ascii_alnum(name@[i as int])));
            return false;
        }
        i = i + 1;
    }
    true
}

/// The column declared by a line; with `skip_create` lines that start a
/// `CREATE` statement or hold `CREATE TABLE` declare none.
pub fn parse_column_line(line: &[char], skip_create: bool) -> (r: Option<ColumnInfo>)
    ensures
        r is Some == (if skip_create {
            is_column_line(line@)
        } else {
            is_named_line(line@)
        }),
        r matches Some(c) ==> column_of_line(c, line@),
{
    let (code0, comment) = split_comment_exec(line);
    let code = collapse_spaces_exec(&code0);
    let create = chars_of("CREATE ");
    let create_table = chars_of("CREATE TABLE");
    if skip_create && starts_with_exec(&unicode_upper_exec(&trim_exec(&code)), &create) {
        return None;
    }
    if skip_create && contains_exec(&unicode_upper_exec(&code), &create_table) {
        return None;
    }
    let ns = index_or_len_exec(&code, ' ');
    let name = slice_exec(&code, 0, ns);
    assert(name@ =~= code@.take(ns as int));
    if name.len() == 0 {
        return None;
    }
    if !is_identifier_exec(&name) {
        return None;
    }
    let after = slice_exec(&code, ns, code.len());
    assert(after@ =~= code@.skip(ns as int));
    let rest = trim_exec(&after);
    let sp = index_or_len_exec(&rest, ' ');
    let cm = index_or_len_exec(&rest, ',');
    let k = if sp <= cm {
        sp
    } else {
        cm
    };
    let data_type = slice_exec(&rest, 0, k);
    assert(data_type@ =~= rest@.take(k as int));
    let tail0 = slice_exec(&rest, k, rest.len());
    assert(tail0@ =~= rest@.skip(k as int));
    let tail = unicode_upper_exec(&trim_exec(&tail0));
    let pk = contains_exec(&tail, &chars_of("PRIMARY KEY"));
    let not_null = contains_exec(&tail, &chars_of("NOT NULL"));
    let auto = contains_exec(&tail, &chars_of("AUTOINCREMENT")) || contains_exec(
        &tail,
        &chars_of("AUTO_INCREMENT"),
    );
    Some(
        ColumnInfo {
            name: string_of(&name),
            nick: String::new(),
            data_type: string_of(&data_type),
            is_primary_key: pk,
            is_auto_increment: auto,
            default_value: None,
            is_nullable: !not_null,
            comment: string_of(&comment),
        },
    )
}

/// The column declared by a line of a `CREATE TABLE` script: `None` for
/// lines that start a `CREATE` statement, hold `CREATE TABLE`, or do not
/// start with an identifier. A `--` comment becomes the column comment.
pub fn read_column_info_from_line(line: &str) -> (r: Option<ColumnInfo>)
    ensures
        r is Some == is_column_line(line@),
        r matches Some(c) ==> column_of_line(c, line@),
{
    parse_column_line(&chars_of(line), true)
}

/// The columns declared by the lines, in order.
pub fn columns_from_lines(lines: &Vec<Vec<char>>) -> (r: Vec<ColumnInfo>)
    ensures
        columns_of_lines(r@, views(lines@)),
{
    let ghost lv = views(lines@);
    let mut r: Vec<ColumnInfo> = Vec::new();
    let mut i: usize = 0;
    while i < lines.len()
        invariant
            i <= lines@.len(),
            lv == views(lines@),
            columns_of_lines(r@, lv.take(i as int)),
        decreases lines.len() - i,
    {
        assert(lv.take(i + 1).drop_last() =~= lv.take(i as int));
        assert(lv.take(i + 1).last() == lines@[i as int]@);
        let ghost kept_before = column_lines(lv.take(i as int));
        match parse_column_line(&lines[i], true) {
            Some(c) => {
                let ghost before = r@;
                r.push(c);
                assert(column_lines(lv.take(i + 1)) == kept_before.push(lines@[i as int]@));
                assert forall|j: int| 0 <= j < r@.len() implies column_of_line(
                    #[trigger] r@[j],
                    column_lines(lv.take(i + 1))[j],
                ) by {
                    if j < before.len() {
                        assert(r@[j] == before[j]);
                    }
                }
            },
            None => {},
        }
        i = i + 1;
    }
    assert(lv.take(lines@.len() as int) =~= lv);
    r
}

/// The table described by a `CREATE TABLE` script (line endings `\r\n` and
/// `\r` count as `\n`); `None` when the script holds no `CREATE TABLE`.
pub fn read_table_info_from_sql(sql: &str) -> (r: Option<TableInfo>)
    ensures
        r is Some == (table_name_of(normalize_newlines(sql@)) is Some),
        r matches Some(t) ==> table_of_sql(t, sql@),
{
    let s = normalize_newlines_exec(&chars_of(sql));
    let name = match table_name_chars(&s) {
        Some(n) => n,
        None => return None,
    };
    proof {
        reveal_strlit("\n");
        assert("\n"@ =~= seq!['\n']);
    }
    let lines = split_exec(&s, &chars_of("\n"));
    let columns = columns_from_lines(&lines);
    Some(
        TableInfo {
            name: string_of(&name),
            nick: String::new(),
            columns,
            comment: String::new(),
            mappers: Vec::new(),
        },
    )
}

/// The script holds a `CREATE TABLE`.
pub open spec fn has_table(sql: Seq<char>) -> bool {
    table_name_of(normalize_newlines(sql)) is Some
}

/// The scripts that hold a `CREATE TABLE`, in order.
pub open spec fn table_scripts(sql_texts: Seq<String>) -> Seq<Seq<char>> {
    sql_texts.map_values(|s: String| s@).filter(|t: Seq<char>| has_table(t))
}

/// The tables described by the given scripts, in order, one for each
/// script that holds a `CREATE TABLE`; the other scripts are skipped.
pub fn read(sql_texts: &Vec<String>) -> (r: Vec<TableInfo>)
    ensures
        r@.len() == table_scripts(sql_texts@).len(),
        forall|i: int| 0 <= i < r@.len() ==> table_of_sql(#[trigger] r@[i], table_scripts(sql_texts@)[i]),
{
    let ghost tv = sql_texts@.map_values(|s: String| s@);
    let ghost f = |t: Seq<char>| has_table(t);
    let mut r: Vec<TableInfo> = Vec::new();
    let mut i: usize = 0;
    while i < sql_texts.len()
        invariant
            i <= sql_texts@.len(),
            tv == sql_texts@.map_values(|s: String| s@),
            f == (|t: Seq<char>| has_table(t)),
            r@.len() == tv.take(i as int).filter(f).len(),
            forall|k: int| 0 <= k < r@.len() ==> table_of_sql(#[trigger] r@[k], tv.take(i as int).filter(f)[k]),
        decreases sql_texts.len() - i,
    {
        let ghost before = r@;
        let ghost t0 = tv.take(i as int);
        let ghost t1 = tv.take(i + 1);
        proof {
            reveal(Seq::filter);
            assert(t1.drop_last() =~= t0);
            assert(t1.last() == sql_texts@[i as int]@);
        }
        match read_table_info_from_sql(sql_texts[i].as_str()) {
            Some(t) => {
                r.push(t);
                proof {
                    assert(t1.filter(f) == t0.filter(f).push(sql_texts@[i as int]@));
                    assert forall|k: int| 0 <= k < r@.len() implies table_of_sql(
                        #[trigger] r@[k],
                        t1.filter(f)[k],
                    ) by {
                        if k < before.len() {
                            assert(r@[k] == before[k]);
                        }
                    }
                }
            },
            None => {
                proof {
                    assert(t1.filter(f) == t0.filter(f));
                }
            },
        }
        i = i + 1;
    }
    assert(tv.take(sql_texts@.len() as int) =~= tv);
    r
}

/// `index_or_len` is the first position of the char, or the length when
/// it does not occur.
pub proof fn lemma_index_or_len(s: Seq<char>, c: char)
    ensures
        0 <= index_or_len(s, c) <= s.len(),
        forall|j: int| 0 <= j < index_or_len(s, c) ==> #[trigger] s[j] != c,
        index_or_len(s, c) < s.len() ==> s[index_or_len(s, c)] == c,
{
    lemma_find(s, seq![c]);
    assert forall|j: int| 0 <= j < index_or_len(s, c) implies #[trigger] s[j] != c by {
        if s[j] == c {
            assert(s.subrange(j, j + 1) =~= seq![c]);
            assert(occurs_at(s, seq![c], j));
        }
    }
    if index_or_len(s, c) < s.len() {
        let k = index_or_len(s, c);
        assert(s.subrange(k, k + 1) == seq![c]);
        assert(s[k] == s.subrange(k, k + 1)[0]);
    }
}

/// The type read from a column line is one word: it is the text after the
/// column name up to (not including) the first space or comma, so it holds
/// neither, and what follows it, if anything, is a space or a comma.
pub proof fn lemma_column_type_is_one_word(c: ColumnInfo, line: Seq<char>)
    requires
        column_of_line(c, line),
    ensures
        forall|i: int|
            0 <= i < c.data_type@.len() ==> #[trigger] c.data_type@[i] != ' ' && c.data_type@[i] != ',',
        c.data_type@.len() <= line_after_name(line).len(),
        line_after_name(line).subrange(0, c.data_type@.len() as int) == c.data_type@,
        c.data_type@.len() < line_after_name(line).len() ==> line_after_name(line)[c.data_type@.len() as int]
            == ' ' || line_after_name(line)[c.data_type@.len() as int] == ',',
{
    let r = line_after_name(line);
    lemma_index_or_len(r, ' ');
    lemma_index_or_len(r, ',');
    let k = line_type_end(line);
    assert(c.data_type@ == r.take(k));
    assert(r.subrange(0, k) =~= r.take(k));
}

} // verus!
