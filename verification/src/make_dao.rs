//! Generation of DAO source code from table definitions and mapper files.
pub mod mapper_info;
pub mod read_mapper;
pub mod read_table;
pub mod read_table_from_sql;
pub mod make_source;
pub mod table_info;
pub mod templates;
