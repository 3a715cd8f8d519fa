//! Catalog of the declarations found in published source packages.
//!
//! A package is indexed in three steps. Its source files, already parsed
//! into syntax nodes, are turned into declaration records with stable
//! identifiers ([`indexer`], [`ident`]); the names that the package
//! publicly imports from its declared dependencies are noted as re-exports
//! ([`manifest`]). The records are stored in the catalog, where they take
//! the place of whatever was stored under the package's key ([`database`],
//! [`storage`]). The packages that it re-exports are queued, each once, and
//! indexed in turn ([`crawl`]).
//!
//! What is stored can be looked up by key, by identifier or by pattern
//! ([`database`], [`search`], [`reader`]), put into words ([`describe`]) and
//! kept as bytes ([`embeddings`]). Downloading, reading files and parsing
//! are left to the caller; [`fetcher`] says what to ask of the registry.
//!
//! Every function states what it returns, and the statements are proved.

pub mod crawl;
pub mod database;
pub mod describe;
pub mod embeddings;
pub mod fetcher;
pub mod ident;
pub mod indexer;
pub mod manifest;
pub mod reader;
pub mod search;
pub mod storage;
pub mod text;
