//! Mapper files: custom SQL statements, each followed by the signature of the
//! function that runs it.
//!
//! A mapper file is read line by line. Lines that are not comments gather
//! into the pending SQL text (each with a trailing `\n`); a line that begins
//! with `fn ` closes the pending statement into a [`MapperInfo`] with that
//! line's name, parameter list and return type.
use crate::make_dao::mapper_info::{
    lemma_known_kind_generates, mapper_src, mapper_template, CrudType, MapperInfo,
};
use crate::make_dao::table_info::TableInfo;
use crate::make_dao::templates::MAPPER_EXECUTE_TEMPLATE;
use crate::text::{
    append_chars, chars_of, ends_with, ends_with_exec, find, find_char_exec, find_exec,
    is_ws, lemma_find, lemma_trim_starts_with, lines, lines_exec, slice_exec, starts_with,
    starts_with_exec, string_of, trim, trim_exec, unicode_upper, unicode_upper_exec, views,
};
use vstd::prelude::*;

verus! {

/// What a [`MapperInfo`] holds, as text.
pub struct MapperSpec {
    pub sql: Seq<char>,
    pub name: Seq<char>,
    pub is_list: bool,
    pub return_type: Seq<char>,
    pub params_str: Seq<char>,
    pub crud_type: CrudType,
}

/// The fields of a mapper as text.
pub open spec fn mapper_spec(m: MapperInfo) -> MapperSpec {
    MapperSpec {
        sql: m.sql@,
        name: m.name@,
        is_list: m.is_list,
        return_type: m.return_type@,
        params_str: m.params_str@,
        crud_type: m.crud_type,
    }
}

/// A line that declares a function: trimmed, it begins with `fn `.
pub open spec fn is_fn_line(l: Seq<char>) -> bool {
    starts_with(trim(l), "fn "@)
}

/// A declaration line whose parameter list can be cut out: it holds a `(`,
/// and a `)` after the first `(`.
pub open spec fn fn_line_ok(l: Seq<char>) -> bool {
    &&& find(l, seq!['(']) is Some
    &&& find(l, seq![')']) is Some
    &&& find(l, seq!['(']).unwrap() < find(l, seq![')']).unwrap()
}

/// The function name: between `fn ` and the first `(`, trimmed.
pub open spec fn fn_name(l: Seq<char>) -> Seq<char> {
    trim(l.subrange(find(l, "fn "@).unwrap() + 3, find(l, seq!['(']).unwrap()))
}

/// The parameter list: between the first `(` and the first `)`, trimmed.
pub open spec fn fn_params(l: Seq<char>) -> Seq<char> {
    trim(l.subrange(find(l, seq!['(']).unwrap() + 1, find(l, seq![')']).unwrap()))
}

/// What follows the first `->`, trimmed; empty without `->`.
pub open spec fn ret_text(l: Seq<char>) -> Seq<char> {
    match find(l, "->"@) {
        Some(k) => trim(l.skip(k + 2)),
        None => Seq::<char>::empty(),
    }
}

/// The declared return is `Vec<..>`.
pub open spec fn returns_list(l: Seq<char>) -> bool {
    starts_with(ret_text(l), "Vec<"@) && ends_with(ret_text(l), ">"@)
}

/// The row type: the element type of a `Vec<..>`, else the declared return.
pub open spec fn ret_type(l: Seq<char>) -> Seq<char> {
    let r = ret_text(l);
    if returns_list(l) {
        r.subrange(4, r.len() - 1)
    } else {
        r
    }
}

/// The statement kind, from the first word of the SQL in upper case.
pub open spec fn crud_of(sql: Seq<char>) -> CrudType {
    let u = unicode_upper(trim(sql));
    if starts_with(u, "SELECT"@) {
        CrudType::Read
    } else if starts_with(u, "INSERT"@) {
        CrudType::Create
    } else if starts_with(u, "UPDATE"@) {
        CrudType::Update
    } else if starts_with(u, "DELETE"@) {
        CrudType::Delete
    } else {
        CrudType::Unknown
    }
}

/// The mapper that a declaration line closes, over the pending SQL.
pub open spec fn declared(l: Seq<char>, sql: Seq<char>) -> MapperSpec {
    MapperSpec {
        sql: sql,
        name: fn_name(l),
        is_list: returns_list(l),
        return_type: ret_type(l),
        params_str: fn_params(l),
        crud_type: crud_of(sql),
    }
}

/// The mappers closed so far and the pending SQL after the given lines.
pub open spec fn parse_lines(ls: Seq<Seq<char>>) -> (Seq<MapperSpec>, Seq<char>)
    decreases ls.len(),
{
    if ls.len() == 0 {
        (seq![], seq![])
    } else {
        let prev = parse_lines(ls.drop_last());
        let l = ls.last();
        if is_fn_line(l) {
            (prev.0.push(declared(l, prev.1)), seq![])
        } else if !starts_with(trim(l), "//"@) {
            (prev.0, prev.1 + l + seq!['\n'])
        } else {
            prev
        }
    }
}

/// The mappers of a mapper file's text.
pub open spec fn mappers_of(content: Seq<char>) -> Seq<MapperSpec> {
    parse_lines(lines(content)).0
}

/// Every declaration line of the text can be cut apart.
pub open spec fn mapper_text_ok(content: Seq<char>) -> bool {
    forall|i: int|
        0 <= i < lines(content).len() && #[trigger] is_fn_line(lines(content)[i]) ==> fn_line_ok(
            lines(content)[i],
        )
}

fn crud_of_exec(sql: &[char]) -> (r: CrudType)
    ensures
        r == crud_of(sql@),
{
    let u = unicode_upper_exec(&trim_exec(sql));
    proof {
        reveal_strlit("SELECT");
        reveal_strlit("INSERT");
        reveal_strlit("UPDATE");
        reveal_strlit("DELETE");
    }
    if starts_with_exec(&u, &chars_of("SELECT")) {
        CrudType::Read
    } else if starts_with_exec(&u, &chars_of("INSERT")) {
        CrudType::Create
    } else if starts_with_exec(&u, &chars_of("UPDATE")) {
        CrudType::Update
    } else if starts_with_exec(&u, &chars_of("DELETE")) {
        CrudType::Delete
    } else {
        CrudType::Unknown
    }
}

/// Reads a declaration line into the mapper that closes `sql`.
fn declared_exec(l: &[char], sql: &[char]) -> (r: MapperInfo)
    requires
        is_fn_line(l@),
        fn_line_ok(l@),
    ensures
        mapper_spec(r) == declared(l@, sql@),
{
    proof {
        reveal_strlit("fn ");
        reveal_strlit("->");
        reveal_strlit("Vec<");
        reveal_strlit(">");
    }
    let fn_pat = chars_of("fn ");
    let ghost k = lemma_trim_starts_with(l@, "fn "@);
    proof {
        lemma_find(l@, "fn "@);
        lemma_find(l@, seq!['(']);
        lemma_find(l@, seq![')']);
        lemma_find(l@, "->"@);
        assert(crate::text::occurs_at(l@, "fn "@, k));
        assert forall|j: int| 0 <= j < k implies !crate::text::occurs_at(l@, "fn "@, j) by {
            if crate::text::occurs_at(l@, "fn "@, j) {
                assert(l@.subrange(j, j + 3)[0] == l@[j]);
                assert(is_ws(l@[j]));
            }
        }
        let o = find(l@, seq!['(']).unwrap();
        assert(l@.subrange(o, o + 1)[0] == l@[o]);
        assert(l@[o] == '(');
        if o < k {
            assert(is_ws(l@[o]));
        }
        if k <= o < k + 3 {
            assert(l@.subrange(k, k + 3)[o - k] == l@[o]);
        }
    }
    let fi = find_exec(&l, &fn_pat).unwrap();
    let open = find_char_exec(l, '(').unwrap();
    let close = find_char_exec(l, ')').unwrap();
    let name = trim_exec(&slice_exec(l, fi + 3, open));
    let params = trim_exec(&slice_exec(l, open + 1, close));
    let mut is_list = false;
    let arrow = chars_of("->");
    assert(arrow@ == "->"@);
    let ret: Vec<char> = match find_exec(l, &arrow) {
        Some(ak) => {
            assert(find(l@, "->"@) == Some(ak as int));
            let n = l.len();
            let rs = trim_exec(&slice_exec(l, ak + 2, n));
            assert(l@.subrange(ak + 2, l@.len() as int) =~= l@.skip(ak + 2));
            if starts_with_exec(&rs, &chars_of("Vec<")) && ends_with_exec(&rs, &chars_of(">")) {
                is_list = true;
                assert(rs@.subrange(0, 4)[3] == rs@[3]);
                assert(rs@.subrange(rs@.len() - 1, rs@.len() as int)[0] == rs@[rs@.len() - 1]);
                slice_exec(&rs, 4, rs.len() - 1)
            } else {
                rs
            }
        },
        None => Vec::new(),
    };
    assert(ret@ == ret_type(l@));
    MapperInfo {
        sql: string_of(sql),
        name: string_of(&name),
        is_list: is_list,
        return_type: string_of(&ret),
        params_str: string_of(&params),
        crud_type: crud_of_exec(sql),
    }
}

/// The mappers of a mapper file's text, in file order. A declaration line
/// must hold a `(` and, after it, a `)`.
pub fn read(content: &str) -> (r: Vec<MapperInfo>)
    requires
        mapper_text_ok(content@),
    ensures
        r@.map_values(|m: MapperInfo| mapper_spec(m)) == mappers_of(content@),
{
    let ls = lines_exec(&chars_of(content));
    let ghost lv = views(ls@);
    assert(lv == lines(content@));
    let mut mappers: Vec<MapperInfo> = Vec::new();
    let mut sql: Vec<char> = Vec::new();
    let mut i: usize = 0;
    proof {
        reveal_strlit("//");
        reveal_strlit("fn ");
    }
    let slash = chars_of("//");
    let fn_pat = chars_of("fn ");
    while i < ls.len()
        invariant
            i <= ls@.len(),
            lv == views(ls@),
            lv == lines(content@),
            mapper_text_ok(content@),
            slash@ == "//"@,
            fn_pat@ == "fn "@,
            (mappers@.map_values(|m: MapperInfo| mapper_spec(m)), sql@) == parse_lines(
                lv.take(i as int),
            ),
        decreases ls.len() - i,
    {
        let l = &ls[i];
        assert(lv.take(i + 1).drop_last() =~= lv.take(i as int));
        assert(lv.take(i + 1).last() == l@);
        let t = trim_exec(l);
        if starts_with_exec(&t, &fn_pat) {
            assert(is_fn_line(lv[i as int]));
            let m = declared_exec(l, &sql);
            let ghost before = mappers@.map_values(|m: MapperInfo| mapper_spec(m));
            mappers.push(m);
            assert(mappers@.map_values(|m: MapperInfo| mapper_spec(m)) =~= before.push(
                mapper_spec(m),
            ));
            sql = Vec::new();
            assert(sql@ =~= Seq::<char>::empty());
        } else if !starts_with_exec(&t, &slash) {
            append_chars(&mut sql, l);
            sql.push('\n');
        }
        i = i + 1;
    }
    assert(lv.take(ls@.len() as int) =~= lv);
    mappers
}

/// A statement is read with the kind its first word names, whatever the
/// letter case and the surrounding blanks: `SELECT` a query, `INSERT` a
/// create, `UPDATE` an update, `DELETE` a delete; and the function
/// generated for a mapper of any of these kinds is not empty.
pub proof fn lemma_statement_kinds(sql: Seq<char>, m: MapperInfo, t: TableInfo, columns: Seq<Seq<char>>)
    ensures
        starts_with(unicode_upper(trim(sql)), "SELECT"@) ==> crud_of(sql) is Read,
        starts_with(unicode_upper(trim(sql)), "INSERT"@) ==> crud_of(sql) is Create,
        starts_with(unicode_upper(trim(sql)), "UPDATE"@) ==> crud_of(sql) is Update,
        starts_with(unicode_upper(trim(sql)), "DELETE"@) ==> crud_of(sql) is Delete,
        m.crud_type == crud_of(m.sql@) && starts_with(unicode_upper(trim(m.sql@)), "DELETE"@)
            ==> mapper_template(m) == MAPPER_EXECUTE_TEMPLATE@ && mapper_src(m, t, columns).len() > 0,
{
    reveal_strlit("SELECT");
    reveal_strlit("INSERT");
    reveal_strlit("UPDATE");
    reveal_strlit("DELETE");
    let u = unicode_upper(trim(sql));
    if starts_with(u, "DELETE"@) || starts_with(u, "UPDATE"@) || starts_with(u, "INSERT"@) {
        assert(u[0] == u.subrange(0, 6)[0]);
    }
    let um = unicode_upper(trim(m.sql@));
    if starts_with(um, "DELETE"@) {
        assert(um[0] == um.subrange(0, 6)[0]);
    }
    if m.crud_type == crud_of(m.sql@) && starts_with(um, "DELETE"@) {
        lemma_known_kind_generates(m, t, columns);
    }
}

} // verus!
