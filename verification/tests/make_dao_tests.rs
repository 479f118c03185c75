use nps::make_dao::make_source::{file_source, make, MakeError};
use nps::make_dao::mapper_info::{sql_parses, CrudType, MapperInfo};
use nps::make_dao::read_mapper::read as read_mappers;
use nps::make_dao::read_table_from_sql::{find_table_name, read, read_column_info_from_line, read_table_info_from_sql};
use nps::make_dao::table_info::{ColumnInfo, TableInfo};
use nps::utils::snake_to_pascal;

fn column(name: &str, data_type: &str, pk: bool, auto: bool, nullable: bool, comment: &str) -> ColumnInfo {
    ColumnInfo {
        name: name.to_string(),
        nick: String::new(),
        data_type: data_type.to_string(),
        is_primary_key: pk,
        is_auto_increment: auto,
        default_value: None,
        is_nullable: nullable,
        comment: comment.to_string(),
    }
}

fn user_table() -> TableInfo {
    TableInfo {
        name: "user_info".to_string(),
        nick: String::new(),
        columns: vec![
            column("id", "INTEGER", true, true, false, "主键"),
            column("name", "TEXT", false, false, false, "名称"),
            column("age", "INT", false, false, true, ""),
            column("created_at", "INTEGER", false, false, false, ""),
            column("updated_at", "INTEGER", false, false, false, ""),
        ],
        comment: String::new(),
        mappers: Vec::new(),
    }
}

#[test]
fn snake_to_pascal_joins_capitalized_pieces() {
    assert_eq!(snake_to_pascal("hello_world_x", "_"), "HelloWorldX");
    assert_eq!(snake_to_pascal("user", "_"), "User");
    assert_eq!(snake_to_pascal("", "_"), "");
}

#[test]
fn entity_name_is_pascal_case_of_table() {
    assert_eq!(user_table().get_entity_name(), "UserInfo");
}

#[test]
fn data_types_map_to_rust_types() {
    assert_eq!(ColumnInfo::map_data_type_to_rust_type("int"), "i64");
    assert_eq!(ColumnInfo::map_data_type_to_rust_type("BIGINT"), "i64");
    assert_eq!(ColumnInfo::map_data_type_to_rust_type("varchar"), "String");
    assert_eq!(ColumnInfo::map_data_type_to_rust_type("Boolean"), "bool");
    assert_eq!(ColumnInfo::map_data_type_to_rust_type("FLOAT"), "f32");
    assert_eq!(ColumnInfo::map_data_type_to_rust_type("double"), "f64");
    assert_eq!(ColumnInfo::map_data_type_to_rust_type("blob"), "String");
}

#[test]
fn member_source_has_comment_and_type() {
    let c = column("id", "INTEGER", true, true, false, "主键");
    assert_eq!(c.make_member_src(), "/// 主键\n    pub id: i64,\n");
    let n = column("age", "INT", false, false, true, "");
    assert_eq!(n.make_member_src(), "\n    pub age: Option<i64>,\n");
}

#[test]
fn table_flags_follow_column_names() {
    let t = user_table();
    assert!(!t.has_version());
    assert!(!t.has_deleted());
    assert!(!t.has_deleted_at());
    assert!(!t.has_deleted_by());
    assert_eq!(t.primary_key_columns().len(), 1);
    assert_eq!(t.auto_increment_and_primary_column(), Some("id".to_string()));
}

#[test]
fn entity_source_lists_members() {
    let src = user_table().make_entity_src();
    assert!(src.starts_with("#[derive(Clone, Debug, Default, serde::Serialize, serde::Deserialize)]\npub struct UserInfo {\n"));
    assert!(src.contains("/// 主键\n    pub id: i64,\n"));
    assert!(src.contains("\n    pub age: Option<i64>,\n"));
}

#[test]
fn query_entity_source_wraps_types() {
    let src = user_table().make_query_entity_src();
    assert!(src.starts_with("#[derive(Default)]\npub struct UserInfoQuery {\n"));
    assert!(src.contains("    pub name: QueryModel<String>,\n"));
}

#[test]
fn insert_function_returns_the_key() {
    let src = user_table().make_insert_func();
    assert!(src.contains("INSERT INTO user_info (name, age, created_at, updated_at) VALUES (?, ?, ?, ?) RETURNING id"));
}

#[test]
fn delete_function_is_keyed_by_primary_key() {
    let src = user_table().make_delete_func();
    assert!(src.contains("DELETE FROM user_info WHERE id = ?"));
    let mut no_key = user_table();
    no_key.columns = vec![column("name", "TEXT", false, false, false, "")];
    assert_eq!(no_key.make_delete_func(), "");
}

#[test]
fn table_name_found_after_create_table() {
    assert_eq!(find_table_name("create table  IF NOT EXISTS user_info (\n id INT\n)".to_string()), Some("user_info".to_string()));
    assert_eq!(find_table_name("CREATE TABLE account\n(id INT)".to_string()), Some("account".to_string()));
    assert_eq!(find_table_name("SELECT 1".to_string()), None);
}

#[test]
fn column_line_is_read() {
    let c = read_column_info_from_line("  name TEXT NOT NULL, -- 名称").unwrap();
    assert_eq!(c.name, "name");
    assert_eq!(c.data_type, "TEXT");
    assert!(!c.is_nullable);
    assert!(!c.is_primary_key);
    assert_eq!(c.comment, "名称");
    let k = read_column_info_from_line("id INTEGER PRIMARY KEY AUTOINCREMENT,").unwrap();
    assert!(k.is_primary_key && k.is_auto_increment && k.is_nullable);
    assert!(read_column_info_from_line(");").is_none());
    assert!(read_column_info_from_line("CREATE TABLE x (").is_none());
    assert!(read_column_info_from_line("").is_none());
}

#[test]
fn table_read_from_create_statement() {
    let sql = "CREATE TABLE IF NOT EXISTS user_info (\r\n  id INTEGER PRIMARY KEY AUTOINCREMENT, -- 主键\r\n  name TEXT NOT NULL, -- 名称\r\n  age INT\r\n);";
    let t = read_table_info_from_sql(sql).unwrap();
    assert_eq!(t.name, "user_info");
    assert_eq!(t.columns.len(), 3);
    assert_eq!(t.columns[0].name, "id");
    assert_eq!(t.columns[0].comment, "主键");
    assert_eq!(t.columns[1].data_type, "TEXT");
    assert_eq!(t.columns[2].name, "age");
    assert!(t.columns[2].is_nullable);
    assert!(read_table_info_from_sql("-- nothing here").is_none());
    let all = read(&vec![sql.to_string(), "no table".to_string()]);
    assert_eq!(all.len(), 1);
}

#[test]
fn mapper_file_is_read() {
    let content = "SELECT * FROM user_info WHERE id = :id\nfn select_by_id(id: i64) -> Vec<UserInfo>\n// a note\nUPDATE user_info SET name = :name WHERE id = :id\n  fn set_name( name: &str, id: i64 )\n";
    let ms = read_mappers(content);
    assert_eq!(ms.len(), 2);
    assert_eq!(ms[0].sql, "SELECT * FROM user_info WHERE id = :id\n");
    assert_eq!(ms[0].name, "select_by_id");
    assert_eq!(ms[0].params_str, "id: i64");
    assert!(ms[0].is_list);
    assert_eq!(ms[0].return_type, "UserInfo");
    assert!(matches!(ms[0].crud_type, CrudType::Read));
    assert_eq!(ms[1].name, "set_name");
    assert_eq!(ms[1].params_str, "name: &str, id: i64");
    assert!(!ms[1].is_list);
    assert_eq!(ms[1].return_type, "");
    assert!(matches!(ms[1].crud_type, CrudType::Update));
}

#[test]
fn params_are_extracted_in_order() {
    assert_eq!(
        MapperInfo::extract_params("UPDATE t SET name = :name WHERE id = :id_2 AND x = ':'"),
        vec!["name".to_string(), "id_2".to_string()]
    );
    assert!(MapperInfo::extract_params("SELECT 1").is_empty());
}

#[test]
fn columns_are_extracted_from_select() {
    assert!(sql_parses("SELECT a, t.b, c AS d, * FROM t"));
    assert_eq!(
        MapperInfo::extract_columns("SELECT a, t.b, c AS d, * FROM t"),
        vec!["a".to_string(), "t.b".to_string(), "d".to_string(), "*".to_string()]
    );
    assert!(!sql_parses("SELEC oops"));
}

#[test]
fn mapper_source_replaces_params() {
    let mut t = user_table();
    let m = MapperInfo {
        sql: "SELECT * FROM user_info WHERE id = :id".to_string(),
        name: "select_by_id".to_string(),
        is_list: true,
        return_type: "UserInfo".to_string(),
        params_str: "id: i64".to_string(),
        crud_type: CrudType::Read,
    };
    let src = m.make_mapper_source(&t);
    assert!(src.contains("pub fn select_by_id(conn: &rusqlite::Connection, id: i64) -> Result<Vec<UserInfo>, rusqlite::Error>"));
    assert!(src.contains("SELECT * FROM user_info WHERE id = ?"));
    assert!(src.contains("id:row.get(0)?,name:row.get(1)?,age:row.get(2)?,created_at:row.get(3)?,updated_at:row.get(4)?,"));
    t.mappers.push(m);
    assert_eq!(t.make_mapper_func(), src);
    let bad = MapperInfo { sql: "SELEC oops".to_string(), ..MapperInfo::default() };
    assert!(bad.try_make_mapper_source(&t).is_none());
}

fn read_mapper(params: &str, return_type: &str) -> MapperInfo {
    MapperInfo {
        sql: "SELECT name FROM user_info WHERE id = :id".to_string(),
        name: "name_of".to_string(),
        is_list: false,
        return_type: return_type.to_string(),
        params_str: params.to_string(),
        crud_type: CrudType::Read,
    }
}

#[test]
fn formatting_needs_rust_source() {
    let mut t = user_table();
    t.mappers.push(read_mapper("id: : i64", "UserInfo"));
    match make(&vec![t], "T").error {
        Some(MakeError::InvalidSource { table }) => assert_eq!(table, "user_info"),
        _ => panic!("expected a source error"),
    }
}

#[test]
fn texts_that_are_not_plain_stop_the_run() {
    let mut t = user_table();
    t.mappers.push(read_mapper("id: i64", "i64 { 0 } fn g();"));
    let run = make(&vec![user_table(), t], "T");
    assert_eq!(run.files.len(), 1);
    match run.error {
        Some(MakeError::NotPlain { table }) => assert_eq!(table, "user_info"),
        _ => panic!("expected a plain-text error"),
    }
    let mut box_param = user_table();
    box_param.mappers.push(read_mapper("box id: i64", "UserInfo"));
    assert!(matches!(make(&vec![box_param], "T").error, Some(MakeError::NotPlain { .. })));
    let mut flush = user_table();
    flush.mappers.push(MapperInfo { sql: "FLUSH RELAY LOGS FOR CHANNEL 1".to_string(), ..read_mapper("id: i64", "UserInfo") });
    assert!(matches!(make(&vec![flush], "T").error, Some(MakeError::InvalidMapperSql { .. })));
    let mut fine = user_table();
    fine.mappers.push(read_mapper("id: i64", "UserInfo"));
    assert!(make(&vec![fine], "T").error.is_none());
}

#[test]
fn dao_file_is_made() {
    let run = make(&vec![user_table()], "2024-01-01T00:00:00+00:00");
    match run.error {
        None => {}
        Some(MakeError::InvalidSource { table }) => panic!("invalid source for {}", table),
        Some(MakeError::InvalidMapperSql { table, mapper }) => panic!("bad mapper {} {}", table, mapper),
        Some(MakeError::NotPlain { table }) => panic!("not plain: {}", table),
    }
    let files = run.files;
    assert_eq!(files.len(), 1);
    assert_eq!(files[0].file_name, "user_info_dao.rs");
    assert!(files[0].source.contains("pub struct UserInfo"));
}

#[test]
fn bad_mapper_stops_the_run() {
    let mut t = user_table();
    t.mappers.push(MapperInfo { sql: "SELEC oops".to_string(), name: "broken".to_string(), ..MapperInfo::default() });
    let mut first = user_table();
    first.name = "first_table".to_string();
    let run = make(&vec![first, t], "now");
    assert_eq!(run.files.len(), 1);
    assert_eq!(run.files[0].file_name, "first_table_dao.rs");
    match run.error {
        Some(MakeError::InvalidMapperSql { table, mapper }) => {
            assert_eq!(table, "user_info");
            assert_eq!(mapper, "broken");
        }
        _ => panic!("expected a mapper error"),
    }
}

#[test]
fn no_tables_make_no_files() {
    let run = nps::make_dao::make_source::make_now(&Vec::new());
    assert!(run.files.is_empty());
    assert!(run.error.is_none());
}

#[test]
fn table_name_stops_at_parenthesis() {
    assert_eq!(find_table_name("CREATE TABLE user(\n  id INTEGER\n)".to_string()), Some("user".to_string()));
}

#[test]
fn select_one_binds_the_key_column() {
    let t = TableInfo {
        name: "user".to_string(),
        nick: String::new(),
        comment: String::new(),
        mappers: vec![],
        columns: vec![column("uid", "INTEGER", true, false, false, ""), column("name", "TEXT", false, false, false, "")],
    };
    let r = t.make_select_one_func();
    assert!(r.contains("(executor: E, uid:i64)"));
    assert!(r.contains("\"SELECT uid, name FROM user WHERE uid = ?\","));
    assert!(r.contains("uid\n            ).fetch_one"));
    assert!(!r.contains(" id\n"));
}

#[test]
fn each_param_becomes_one_mark() {
    let m = MapperInfo {
        sql: "SELECT * FROM users WHERE id = :id OR id = :id2".to_string(),
        name: "find".to_string(),
        is_list: false,
        return_type: "Users".to_string(),
        params_str: "id: i64, id2: i64".to_string(),
        crud_type: CrudType::Read,
    };
    let table = TableInfo { name: "users".to_string(), nick: String::new(), columns: vec![], comment: String::new(), mappers: vec![] };
    let r = m.make_mapper_source(&table);
    assert!(r.contains("SELECT * FROM users WHERE id = ? OR id = ?"));
    assert!(!r.contains("?2"));
    assert!(r.contains("rusqlite::params!(id, id2)"));
}

#[test]
fn columns_of_aliases_and_other_statements() {
    assert_eq!(
        MapperInfo::extract_columns("SELECT u.id, u.nick AS n FROM users u"),
        vec!["u.id".to_string(), "n".to_string()]
    );
    assert_eq!(MapperInfo::extract_columns("SELECT * FROM users"), vec!["*".to_string()]);
    assert_eq!(MapperInfo::extract_columns("DELETE FROM users WHERE id = 1"), Vec::<String>::new());
    assert_eq!(MapperInfo::extract_columns("SELECT t.* FROM t"), vec!["t".to_string()]);
}

#[test]
fn mapper_columns_fill_the_row_fields() {
    let m = MapperInfo {
        sql: "SELECT name, age AS years FROM user_info WHERE id = :id".to_string(),
        name: "brief".to_string(),
        is_list: false,
        return_type: "Brief".to_string(),
        params_str: "id: i64".to_string(),
        crud_type: CrudType::Read,
    };
    let r = m.make_mapper_source(&user_table());
    assert!(r.contains("name:row.get(0)?,years:row.get(1)?,"));
    assert!(!r.contains("row.get(2)"));
}

#[test]
fn formatted_source_is_laid_out() {
    let run = make(&vec![user_table()], "T2");
    let source = &run.files[0].source;
    assert!(source.starts_with("#[derive(Clone, Debug, Default, serde::Serialize, serde::Deserialize)]\npub struct UserInfo {\n"));
    assert!(source.contains("\nimpl AsRef<UserInfo> for UserInfo {\n    fn as_ref(&self) -> &UserInfo {\n        self\n    }\n}\n"));
}

#[test]
fn dao_file_holds_the_laid_out_source() {
    let run = make(&vec![user_table()], "T1");
    assert!(run.error.is_none());
    let files = run.files;
    let text = file_source(&user_table(), "T1");
    assert!(text.starts_with("// Generated at T1\n"));
    assert_ne!(files[0].source, text);
    assert!(!files[0].source.contains("Generated at"));
    assert!(files[0].source.contains("pub async fn delete<"));
}

#[test]
fn entity_source_has_struct_then_as_ref() {
    let t = user_table();
    let s = t.make_entity_src();
    let members: String = t.columns.iter().map(|c| c.make_member_src()).collect();
    let head = format!(
        "#[derive(Clone, Debug, Default, serde::Serialize, serde::Deserialize)]\npub struct UserInfo {{\n{}}}\n",
        members
    );
    assert!(s.starts_with(&head));
    assert!(s.contains("impl AsRef<UserInfo> for UserInfo {"));
}

#[test]
fn set_delete_without_version_differs_only_in_name() {
    let mut t = user_table();
    t.columns.push(column("deleted", "INTEGER", false, false, false, ""));
    let plain = t.make_set_delete_func();
    let ignoring = t.make_set_delete_ignore_version_func();
    assert!(!plain.is_empty());
    assert_eq!(ignoring, plain.replace("pub async fn set_delete<", "pub async fn set_delete_ignone_version<"));
    let no_deleted = user_table();
    assert!(no_deleted.make_set_delete_func().is_empty());
    assert!(no_deleted.make_set_delete_ignore_version_func().is_empty());
}

#[test]
fn data_types_use_unicode_upper_case() {
    assert_eq!(ColumnInfo::map_data_type_to_rust_type("ınt"), "i64");
    assert_eq!(ColumnInfo::map_data_type_to_rust_type("boolean"), "bool");
}
