//! Table descriptions read from the `CREATE TABLE` statements that a
//! database keeps in its schema.
use crate::make_dao::read_table_from_sql::{
    column_of_line, is_named_line, normalize_newlines, parse_column_line,
};
use crate::make_dao::table_info::{ColumnInfo, TableInfo};
use crate::text::{
    chars_of, collapse_spaces, collapse_spaces_exec, find, find_char_exec,
    find_exec, lemma_find, replace_str, rfind_char, rfind_char_exec, slice_exec, split_char,
    split_exec, starts_with, starts_with_exec, string_of, trim, trim_exec, upper, upper_exec, views,
};
use vstd::prelude::*;

verus! {

// ---------------------------------------------------------------------------
// Specifications
// ---------------------------------------------------------------------------

/// The statement after `CREATE TABLE` (and `IF NOT EXISTS`), trimmed, with
/// runs of spaces collapsed; `None` without `CREATE TABLE`.
pub open spec fn after_create_table(sql: Seq<char>) -> Option<Seq<char>> {
    let s = normalize_newlines(collapse_spaces(sql));
    match find(upper(s), "CREATE TABLE"@) {
        None => None,
        Some(i) => {
            let t = trim(s.skip(i + "CREATE TABLE"@.len()));
            Some(
                if starts_with(t, "IF NOT EXISTS"@) {
                    trim(t.skip("IF NOT EXISTS"@.len() as int))
                } else {
                    t
                },
            )
        },
    }
}

/// The statement holds `CREATE TABLE` followed by a `(`.
pub open spec fn has_table_head(sql: Seq<char>) -> bool {
    match after_create_table(sql) {
        Some(t) => find(t, seq!['(']) is Some,
        None => false,
    }
}

/// The part of the statement before the column list.
pub open spec fn table_head(sql: Seq<char>) -> Seq<char> {
    let t = after_create_table(sql)->0;
    t.take(find(t, seq!['('])->0)
}

/// The table name: the head up to its `--` comment, trimmed.
pub open spec fn head_name(sql: Seq<char>) -> Seq<char> {
    let h = table_head(sql);
    match find(h, "--"@) {
        Some(c) => trim(h.take(c)),
        None => trim(h),
    }
}

/// The table comment: the head from its `--` on, trimmed (empty without one).
pub open spec fn head_comment(sql: Seq<char>) -> Seq<char> {
    let h = table_head(sql);
    match find(h, "--"@) {
        Some(c) => trim(h.skip(c)),
        None => Seq::<char>::empty(),
    }
}

/// The statement has a column list: a `(` and, after it, a last `)`.
pub open spec fn has_column_list(sql: Seq<char>) -> bool {
    let s = normalize_newlines(sql);
    &&& has_table_head(s)
    &&& find(s, seq!['(']) is Some
    &&& rfind_char(s, ')') is Some
    &&& find(s, seq!['('])->0 + 1 <= rfind_char(s, ')')->0
}

/// The text between the first `(` and the last `)`.
pub open spec fn column_list(sql: Seq<char>) -> Seq<char> {
    let s = normalize_newlines(sql);
    s.subrange(find(s, seq!['('])->0 + 1, rfind_char(s, ')')->0)
}

/// The lines that start with an identifier, in order.
pub open spec fn named_lines(lines: Seq<Seq<char>>) -> Seq<Seq<char>>
    decreases lines.len(),
{
    if lines.len() == 0 {
        seq![]
    } else {
        let rest = named_lines(lines.drop_last());
        if is_named_line(lines.last()) {
            rest.push(lines.last())
        } else {
            rest
        }
    }
}

/// The table read from a schema statement.
pub open spec fn table_of_schema(t: TableInfo, sql: Seq<char>) -> bool {
    let s = normalize_newlines(sql);
    let kept = named_lines(split_char(column_list(sql), '\n'));
    &&& t.name@ == head_name(s)
    &&& t.comment@ == head_comment(s)
    &&& t.nick@.len() == 0
    &&& t.mappers@.len() == 0
    &&& t.columns@.len() == kept.len()
    &&& forall|i: int| 0 <= i < kept.len() ==> column_of_line(#[trigger] t.columns@[i], kept[i])
}

// ---------------------------------------------------------------------------
// Executable parsing
// ---------------------------------------------------------------------------

fn after_create_table_exec(sql: &[char]) -> (r: Option<Vec<char>>)
    ensures
        r matches Some(v) ==> after_create_table(sql@) == Some(v@),
        r is None ==> after_create_table(sql@) is None,
{
    let c = collapse_spaces_exec(sql);
    proof {
        reveal_strlit("\r\n");
        reveal_strlit("\r");
        reveal_strlit("CREATE TABLE");
        reveal_strlit("IF NOT EXISTS");
    }
    let a = replace_str(&c, "\r\n", &chars_of("\n"));
    let s = replace_str(&a, "\r", &chars_of("\n"));
    let u = upper_exec(&s);
    let key = chars_of("CREATE TABLE");
    proof {
        lemma_find(u@, key@);
    }
    match find_exec(&u, &key) {
        None => None,
        Some(i) => {
            let n = s.len();
            assert(u@.len() == s@.len());
            assert(i + 12 <= n);
            let rest = slice_exec(&s, i + 12, n);
            assert(rest@ =~= s@.skip(i + "CREATE TABLE"@.len()));
            let t = trim_exec(&rest);
            if starts_with_exec(&t, &chars_of("IF NOT EXISTS")) {
                let tail = slice_exec(&t, 13, t.len());
                assert(tail@ =~= t@.skip("IF NOT EXISTS"@.len() as int));
                Some(trim_exec(&tail))
            } else {
                Some(t)
            }
        },
    }
}

/// The table name and comment of a schema statement.
pub fn find_table_name(sql: String) -> (r: (String, String))
    requires
        has_table_head(sql@),
    ensures
        r.0@ == head_name(sql@),
        r.1@ == head_comment(sql@),
{
    let s = chars_of(sql.as_str());
    let t = match after_create_table_exec(&s) {
        Some(t) => t,
        None => {
            return (String::new(), String::new());
        },
    };
    proof {
        lemma_find(t@, seq!['(']);
        reveal_strlit("--");
    }
    let open = match find_char_exec(&t, '(') {
        Some(o) => o,
        None => {
            return (String::new(), String::new());
        },
    };
    let head = slice_exec(&t, 0, open);
    assert(head@ =~= t@.take(open as int));
    proof {
        lemma_find(head@, "--"@);
    }
    match find_exec(&head, &chars_of("--")) {
        Some(ci) => {
            let name = slice_exec(&head, 0, ci);
            let comment = slice_exec(&head, ci, head.len());
            assert(name@ =~= head@.take(ci as int));
            assert(comment@ =~= head@.skip(ci as int));
            (string_of(&trim_exec(&name)), string_of(&trim_exec(&comment)))
        },
        None => (string_of(&trim_exec(&head)), String::new()),
    }
}

/// The column declared by a line of a column list: `None` for lines that
/// do not start with an identifier. A `--` comment becomes the column comment.
pub fn read_column_info_from_line(line: &str) -> (r: Option<ColumnInfo>)
    ensures
        r is Some == is_named_line(line@),
        r matches Some(c) ==> column_of_line(c, line@),
{
    parse_column_line(&chars_of(line), false)
}

fn columns_from_named_lines(lines: &Vec<Vec<char>>) -> (r: Vec<ColumnInfo>)
    ensures
        r@.len() == named_lines(views(lines@)).len(),
        forall|i: int| 0 <= i < r@.len() ==> column_of_line(
            #[trigger] r@[i],
            named_lines(views(lines@))[i],
        ),
{
    let ghost lv = views(lines@);
    let mut r: Vec<ColumnInfo> = Vec::new();
    let mut i: usize = 0;
    while i < lines.len()
        invariant
            i <= lines@.len(),
            lv == views(lines@),
            r@.len() == named_lines(lv.take(i as int)).len(),
            forall|k: int| 0 <= k < r@.len() ==> column_of_line(
                #[trigger] r@[k],
                named_lines(lv.take(i as int))[k],
            ),
        decreases lines.len() - i,
    {
        assert(lv.take(i + 1).drop_last() =~= lv.take(i as int));
        assert(lv.take(i + 1).last() == lines@[i as int]@);
        let ghost kept_before = named_lines(lv.take(i as int));
        match parse_column_line(&lines[i], false) {
            Some(c) => {
                let ghost before = r@;
                r.push(c);
                assert(named_lines(lv.take(i + 1)) == kept_before.push(lines@[i as int]@));
                assert forall|k: int| 0 <= k < r@.len() implies column_of_line(
                    #[trigger] r@[k],
                    named_lines(lv.take(i + 1))[k],
                ) by {
                    if k < before.len() {
                        assert(r@[k] == before[k]);
                    }
                }
            },
            None => {},
        }
        i = i + 1;
    }
    assert(lv.take(lines@.len() as int) =~= lv);
    r
}

/// The table described by a schema statement: its name and comment from
/// the head, its columns from the lines between the first `(` and the last
/// `)` (line endings `\r\n` and `\r` count as `\n`).
pub fn read_table_info_from_sql(sql: String) -> (r: TableInfo)
    requires
        has_column_list(sql@),
    ensures
        table_of_schema(r, sql@),
{
    proof {
        reveal_strlit("\r\n");
        reveal_strlit("\r");
        reveal_strlit("\n");
        assert("\n"@ =~= seq!['\n']);
    }
    let c = chars_of(sql.as_str());
    let a = replace_str(&c, "\r\n", &chars_of("\n"));
    let s = replace_str(&a, "\r", &chars_of("\n"));
    let (name, comment) = find_table_name(string_of(&s));
    proof {
        lemma_find(s@, seq!['(']);
    }
    let open = match find_char_exec(&s, '(') {
        Some(o) => o,
        None => {
            return TableInfo {
                name,
                nick: String::new(),
                columns: Vec::new(),
                comment,
                mappers: Vec::new(),
            };
        },
    };
    let close = match rfind_char_exec(&s, ')') {
        Some(o) => o,
        None => {
            return TableInfo {
                name,
                nick: String::new(),
                columns: Vec::new(),
                comment,
                mappers: Vec::new(),
            };
        },
    };
    proof {
        crate::text::lemma_rfind_char(s@, ')');
    }
    let list = slice_exec(&s, open + 1, close);
    let lines = split_exec(&list, &chars_of("\n"));
    let columns = columns_from_named_lines(&lines);
    TableInfo { name, nick: String::new(), columns, comment, mappers: Vec::new() }
}

} // verus!
