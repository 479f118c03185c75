//! Fixed source templates of the generated DAO functions.
use vstd::prelude::*;

verus! {

/// Template of the `AsRef` impl appended to an entity.
pub const AS_REF_TEMPLATE: &'static str = r#"
        impl AsRef<[ENTITY]> for [ENTITY] {
            fn as_ref(&self) -> &[ENTITY] {
                self
            }
        }"#;

/// Template of the insert function for a table with an auto-increment primary key.
pub const INSERT_RETURNING_TEMPLATE: &'static str = r#"
            /// 插入数据
            pub async fn insert<'e, E>(executor: E, entity: impl AsRef<[ENTITY]>) -> Result<i64, sqlx::Error>
            where
                E: sqlx::Executor<'e, Database = sqlx::Sqlite>,
            {
                [TIME_CODE]
                let entity = entity.as_ref();
                sqlx::query_scalar!("[SQL]", [PARAM]).fetch_one(executor).await
            }"#;

/// Template of the insert function for other tables.
pub const INSERT_TEMPLATE: &'static str = r#"
            /// 插入数据
            pub async fn insert<'e, E>(executor: E, entity: impl AsRef<[ENTITY]>) -> Result<(),sqlx::Error>
            where
                E: sqlx::Executor<'e, Database = sqlx::Sqlite>,
            {
                [TIME_CODE]
                let entity = entity.as_ref();
                sqlx::query!("[SQL]", [PARAM]).execute(executor).await?;
                Ok(())
            }"#;

/// Template of the select-one-by-primary-key function.
pub const SELECT_ONE_TEMPLATE: &'static str = r##"

        /// 通过主键查询一条数据
        pub async fn select_one<'e, E>(executor: E, [FUNC_PARAMS]) -> Result<[ENTITY], sqlx::Error>
        where
            E: sqlx::Executor<'e, Database = sqlx::Sqlite>,
        {
            sqlx::query_as!(
                [ENTITY],
                "SELECT [FIELDS] FROM [TABLE] WHERE [WHERE]",
                [PARAM]
            ).fetch_one(executor).await
        }
        "##;

/// Template of the select-all function that skips logically deleted rows.
pub const SELECT_ALL_TEMPLATE: &'static str = r##"
                /// 查询所有未删除的数据
                pub async fn select_all<'e, E>(executor: E) -> Result<Vec<[ENTITY]>, sqlx::Error>
                where
                    E: sqlx::Executor<'e, Database = sqlx::Sqlite>,
                {
                    sqlx::query_as!([ENTITY], "SELECT * FROM [TABLE] where deleted = 0")
                        .fetch_all(executor)
                        .await
                }
                "##;

/// Template of the select-all function that includes logically deleted rows.
pub const SELECT_ALL_INCLUDE_DELETED_TEMPLATE: &'static str = r##"
                /// 查询所有数据，包括已删除的数据
                pub async fn select_all_include_deleted<'e, E>(executor: E) -> Result<Vec<[ENTITY]>, sqlx::Error>
                where
                    E: sqlx::Executor<'e, Database = sqlx::Sqlite>,
                {
                    sqlx::query_as!([ENTITY], "SELECT * FROM [TABLE]")
                        .fetch_all(executor)
                        .await
                }
                "##;

/// Template of the select-all function for tables without a `deleted` column.
pub const SELECT_ALL_PLAIN_TEMPLATE: &'static str = r##"

                /// 查询所有
                pub async fn select_all<'e, E>(executor: E) -> Result<Vec<[ENTITY]>, sqlx::Error>
                where
                    E: sqlx::Executor<'e, Database = sqlx::Sqlite>,
                {
                    sqlx::query_as!([ENTITY], "SELECT * FROM [TABLE]")
                        .fetch_all(executor)
                        .await
                }
        "##;

/// Template of the update function.
pub const UPDATE_TEMPLATE: &'static str = r##"
        /// 更新数据
        pub async fn update<'e, E>(executor: E, entity: impl AsRef<[ENTITY]>) -> Result<u64, sqlx::Error>
        where
            E: sqlx::Executor<'e, Database = sqlx::Sqlite>,
        {
            [TIMESTAMP]
            let entity = entity.as_ref();
            let rs = sqlx::query!(
            "[SQL]",
            [PARAM]
            ).execute(executor).await?;
            let count = rs.rows_affected();
            Ok(count)
        }
        "##;

/// Template of the logical delete function.
pub const SET_DELETE_TEMPLATE: &'static str = r##"
        /// 逻辑删除数据
        pub async fn set_delete<'e, E>(
            executor: E,
            [FUNC_PARAMS]
        ) -> Result<u64, sqlx::Error>
        where
            E: sqlx::Executor<'e, Database = sqlx::Sqlite>,
        {
            [TIMESTAMP]
            let rs = sqlx::query!("[SQL]", [PARAM])
                .execute(executor)
                .await?;
            let count = rs.rows_affected();
            Ok(count)
        }
        "##;

/// Template of the logical delete function that ignores the version.
pub const SET_DELETE_IGNORE_VERSION_TEMPLATE: &'static str = r##"
        /// 逻辑删除数据
        pub async fn set_delete_ignone_version<'e, E>(
            executor: E,
            [FUNC_PARAMS]
        ) -> Result<u64, sqlx::Error>
        where
            E: sqlx::Executor<'e, Database = sqlx::Sqlite>,
        {
            [TIMESTAMP]
            let rs = sqlx::query!("[SQL]", [PARAM])
                .execute(executor)
                .await?;
            let count = rs.rows_affected();
            Ok(count)
        }
        "##;

/// Template of the physical delete function.
pub const DELETE_TEMPLATE: &'static str = r##"
        /// 物理删除数据
        pub async fn delete<'e, E>(executor: E, [FUNC_PARAMS]) -> Result<u64, sqlx::Error>
        where
            E: sqlx::Executor<'e, Database = sqlx::Sqlite>,
        {
            let rs = sqlx::query!("[SQL]", [PARAM])
                .execute(executor)
                .await?;
            let count = rs.rows_affected();
            Ok(count)
        }
        "##;

/// Template of the read mapper function returning a list.
pub const MAPPER_LIST_TEMPLATE: &'static str = r###"
                    pub fn [FUNC_NAME](conn: &rusqlite::Connection, [FUNC_PARAMS]) -> Result<Vec<[RETURN_TYPE]>, rusqlite::Error> {
                        const SQL: &str = r#"[SQL]"#;
                        let mut stmt = conn.prepare(SQL)?;
                        stmt.query_map([[SQL_PARAM]], |row| {
                            Ok([ENTITY] {
                                [ROW_TO_STRUCT]
                                ..Default::default()
                            })
                        })?
                        .collect()
                    }"###;

/// Template of the read mapper function returning one row.
pub const MAPPER_ONE_TEMPLATE: &'static str = r###"
                    pub fn [FUNC_NAME](conn: &rusqlite::Connection, [FUNC_PARAMS]) -> Result<[RETURN_TYPE], rusqlite::Error> {
                        const SQL: &str = r#"[SQL]"#;
                        let mut stmt = conn.prepare(SQL)?;
                        stmt.query_one(rusqlite::params!([SQL_PARAM]), |row| {
                            Ok([ENTITY] {
                                [ROW_TO_STRUCT]
                                ..Default::default()
                            })
                        })
                    }"###;

/// Template of the mapper function that executes a statement.
pub const MAPPER_EXECUTE_TEMPLATE: &'static str = r##"
                    pub fn [FUNC_NAME](conn: &rusqlite::Connection, [FUNC_PARAMS]) -> Result<usize, rusqlite::Error> {
                        const SQL: &str = r#"[SQL]"#;
                        conn.execute(SQL, rusqlite::params!([SQL_PARAM]))
                    }
                "##;

/// Statement placed in generated functions that need the current time.
pub const TIMESTAMP_CODE: &'static str = "let timestamp = std::time::SystemTime::now().duration_since(std::time::UNIX_EPOCH).unwrap().as_millis() as i64;";

/// The `AsRef` template begins with its impl line, up to the opening brace.
pub proof fn lemma_as_ref_head()
    ensures
        AS_REF_TEMPLATE@.len() >= 44,
        AS_REF_TEMPLATE@.subrange(0, 44) == "\n        impl AsRef<[ENTITY]> for [ENTITY] {"@,
{
    reveal_strlit(r#"
        impl AsRef<[ENTITY]> for [ENTITY] {
            fn as_ref(&self) -> &[ENTITY] {
                self
            }
        }"#);
    reveal_strlit("\n        impl AsRef<[ENTITY]> for [ENTITY] {");
    assert(AS_REF_TEMPLATE@.subrange(0, 44) =~= "\n        impl AsRef<[ENTITY]> for [ENTITY] {"@);
}

/// The two logical-delete templates are the same text but for the
/// function's name, and no `[` comes before the name.
pub proof fn lemma_set_delete_templates()
    ensures
        SET_DELETE_TEMPLATE@.len() > 0 && SET_DELETE_TEMPLATE@[0] == '\n',
        SET_DELETE_IGNORE_VERSION_TEMPLATE@.len() > 0 && SET_DELETE_IGNORE_VERSION_TEMPLATE@[0] == '\n',
        exists|x: Seq<char>, y: Seq<char>|
            #![trigger x + "pub async fn set_delete<"@ + y]
            SET_DELETE_TEMPLATE@ == x + "pub async fn set_delete<"@ + y
                && SET_DELETE_IGNORE_VERSION_TEMPLATE@ == x + "pub async fn set_delete_ignone_version<"@ + y
                && forall|i: int| 0 <= i < x.len() ==> x[i] != '[',
{
    reveal_strlit(r##"
        /// 逻辑删除数据
        pub async fn set_delete<'e, E>(
            executor: E,
            [FUNC_PARAMS]
        ) -> Result<u64, sqlx::Error>
        where
            E: sqlx::Executor<'e, Database = sqlx::Sqlite>,
        {
            [TIMESTAMP]
            let rs = sqlx::query!("[SQL]", [PARAM])
                .execute(executor)
                .await?;
            let count = rs.rows_affected();
            Ok(count)
        }
        "##);
    reveal_strlit(r##"
        /// 逻辑删除数据
        pub async fn set_delete_ignone_version<'e, E>(
            executor: E,
            [FUNC_PARAMS]
        ) -> Result<u64, sqlx::Error>
        where
            E: sqlx::Executor<'e, Database = sqlx::Sqlite>,
        {
            [TIMESTAMP]
            let rs = sqlx::query!("[SQL]", [PARAM])
                .execute(executor)
                .await?;
            let count = rs.rows_affected();
            Ok(count)
        }
        "##);
    reveal_strlit("pub async fn set_delete<");
    reveal_strlit("pub async fn set_delete_ignone_version<");
    let t1 = SET_DELETE_TEMPLATE@;
    let t2 = SET_DELETE_IGNORE_VERSION_TEMPLATE@;
    let x = t1.subrange(0, 28);
    let y = t1.skip(52);
    assert(t1 =~= x + "pub async fn set_delete<"@ + y);
    assert(t2 =~= x + "pub async fn set_delete_ignone_version<"@ + y);
    assert forall|i: int| 0 <= i < x.len() implies x[i] != '[' by {}
}

} // verus!
