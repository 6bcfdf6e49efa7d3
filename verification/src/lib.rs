//! Project scaffolding and compilation orchestration for a
//! privacy-preserving multiparty-computation (MPC) application framework.
//!
//! The library covers the parts with real design decisions, each with a
//! verified contract:
//!
//! - the configuration model ([`config`]) and the protocol-parameter
//!   validator ([`validate`]), which enforces the Byzantine-fault-tolerance
//!   bound `threshold < (parties + 2) / 3` on at least five parties;
//! - the manifest ([`manifest`]): a renderer and a parser for the persisted
//!   project configuration, proved inverse to one another on well-formed
//!   configurations;
//! - the template engine ([`templates`]) with a verified placeholder
//!   substitution, and the scaffold planner ([`scaffold`]), which turns a
//!   configuration into the exact (path, content) file set of a new project;
//! - the compilation orchestrator's decisions ([`compile`]): argument lists
//!   for the external compiler, output-path policy, deterministic source
//!   discovery, and batch summaries.
//!
//! Console I/O, filesystem writes, and spawning the external compiler stay
//! with the embedding command-line program, which consumes the plans and
//! decisions computed here.

pub mod compile;
pub mod config;
pub mod manifest;
pub mod numbers;
pub mod scaffold;
pub mod templates;
pub mod text;
pub mod validate;
