//! Schema synchronisation logic for a Supabase project watcher: a model of a
//! Postgres schema, the diff between two schemas, the SQL that turns one into
//! the other, the reading of schema SQL and of catalogue rows, the
//! classification of file changes and the project and log store.

pub mod text;
pub mod name_map;
pub mod schema;
pub mod diff;
pub mod generator;
pub mod sql_ast;
pub mod parsing;
pub mod introspection;
pub mod models;
pub mod state;
pub mod supabase_api;
pub mod watcher;
pub mod sync;
pub mod laws;
pub mod change_laws;
