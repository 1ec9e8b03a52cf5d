//! A filter-to-SQL compiler for a GraphQL data-access layer over PostgreSQL.

pub mod text;
pub mod value;
pub mod clause;
pub mod filter;
pub mod placeholder;
pub mod entity;
pub mod bind;
pub mod resolvers;
pub mod cors;
pub mod db;
