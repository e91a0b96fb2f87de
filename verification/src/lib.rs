//! Validation, indexing and integrity stamping for a database of software
//! package records.
//!
//! A source tree holds one file per package and one file per group of
//! packages. A loader reads the files and hands this library one value per
//! file; the library never touches the file system. It checks the records,
//! builds the lookup indexes, and stamps the encoded database with its
//! checksum. Every executable function carries a contract that is checked by
//! Verus.
//!
//! - [`model`], [`source`], [`issue`], [`report`]: the records, the files that
//!   hold them, the findings of the checks and the report that gathers them.
//! - [`layout`], [`order`], [`schema`]: which files are records, the order in
//!   which they are processed, and the schema validation of a record.
//! - [`records`], [`uniqueness`], [`closure`], [`references`]: the checks.
//! - [`pipeline`]: all checks in a row, either collecting every finding or
//!   stopping at the first hard error.
//! - [`index`], [`grouping`], [`database`], [`checksum`]: the indexes, the
//!   compiled database, and its integrity stamp.
//! - [`stats`]: aggregate counts over a collection.
//! - [`alike`], [`gather`], [`text`]: helpers.

pub mod alike;
pub mod checksum;
pub mod closure;
pub mod database;
pub mod gather;
pub mod grouping;
pub mod index;
pub mod issue;
pub mod layout;
pub mod model;
pub mod order;
pub mod pipeline;
pub mod records;
pub mod references;
pub mod report;
pub mod schema;
pub mod source;
pub mod stats;
pub mod text;
pub mod uniqueness;
