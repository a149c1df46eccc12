//! Catalogue logic of an OPDS server for a library of FB2 books.

pub mod archive;
pub mod catalog;
pub mod collate;
pub mod database;
pub mod impls;
pub mod opds;
pub mod search;
pub mod sql;
pub mod text;
pub mod utils;
