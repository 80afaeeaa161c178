//! A content-addressed corpus of SQL statements: identities, statement
//! records and the rules that cut scripts into statements.

pub mod bytes;
pub mod classifier;
pub mod cli;
pub mod identity;
pub mod ingest;
pub mod language;
pub mod scan;
pub mod splitter;
pub mod sqlite_cli;
pub mod statement;
pub mod store;
