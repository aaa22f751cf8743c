//! Citation records for software packages.
//!
//! A package manifest is decoded into a [`PackageInfo`](record::PackageInfo),
//! which is then rendered as a BibTeX `@misc` entry. Every function of the
//! library carries a contract over the mathematical content of its
//! arguments (sequences of characters), and the contracts are proved. What
//! is taken on trust is named where it stands: what the `toml` crate makes
//! of a text ([`document`]), and what the clock says ([`citation`]).

pub mod text;
pub mod occurrence;

pub mod record;
pub mod citation;
pub mod lines;
pub mod document;
pub mod manifest;
pub mod policy;
