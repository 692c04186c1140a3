//! Quilt, a Fabric-like loader; its install and launch are those of
//! `fabric` with the Quilt base.
pub mod schema;
