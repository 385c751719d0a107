//! Access to a hierarchical data catalog, gated by the catalog's authority.
//!
//! The library decides; it performs no I/O. Three components work as step
//! machines that name the next request and take its outcome:
//! [`resolver::PermissionCheck`] decides whether a principal may read or
//! write a securable, [`sync::Refresh`] mirrors catalogs, schemas and tables
//! into the metadata cache, and [`reader::Materialization`] brings a table's
//! files into one dataframe once the principal was allowed to read it.
pub mod api_client;
pub mod cache;
pub mod delta;
pub mod metastore;
pub mod names;
pub mod permissions;
pub mod reader;
pub mod resolver;
pub mod securable;
pub mod sql_client;
pub mod sync;
pub mod text;
