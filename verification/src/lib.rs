//! An in-memory mini-SQL engine: a recursive-descent parser for a small
//! `CREATE TABLE` / `INSERT` / `SELECT` subset, and an execution engine
//! that runs parsed statements against a typed, append-only table store.

pub mod ast;
pub mod create;
pub mod engine;
pub mod error;
pub mod insert;
pub mod laws;
pub mod parse;
pub mod print;
pub mod roundtrip;
pub mod row;
pub mod select;
pub mod table;
pub mod value;
