//! Self-registration of compute nodes into a centrally managed cluster.
//!
//! A node submits its address, its host credential and its declarative
//! system configuration, authorised by a time-boxed, use-limited token.
//! The registrar checks the token and merges the node's configuration
//! into a shared, version-controlled cluster definition.
//!
//! The modules, leaves first:
//! - [`failure`]: the kinds of failure and the status each one answers with;
//! - [`token`]: the table of authorisation tokens;
//! - [`submission`]: the schema of a registration request;
//! - [`text`]: escaping and comparison of texts;
//! - [`syntax`]: the syntax tree of a configuration text;
//! - [`document`]: a parsed configuration document and its host registry;
//! - [`identity`]: the identity of a host, derived from its credential;
//! - [`merge`]: the insertion of a host entry into the cluster document;
//! - [`repository`]: the decisions around the repository's working copy;
//! - [`registration`]: the state machine that handles one request;
//! - [`reporter`]: the node's side, payload and outcome.
pub mod document;
pub mod failure;
pub mod identity;
pub mod merge;
pub mod registration;
pub mod reporter;
pub mod repository;
pub mod submission;
pub mod syntax;
pub mod text;
pub mod token;
