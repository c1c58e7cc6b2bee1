//! Verified core of the OMMX optimization-model toolkit: identifiers, modeling
//! labels, constraint collections, constraint hints and the decision logic of
//! the artifact transport.
pub mod btree_keys;
pub mod ids;
pub mod label;
pub mod constraint;
pub mod collection;
pub mod transport;
pub mod image_ref;
pub mod remote;
pub mod anonymous;
pub mod stage;
pub mod hints;
pub mod hint_parse;
pub mod push;
pub mod metadata;
pub mod kind;
pub mod dependent_expr;
pub mod samples;
pub mod cli;
pub mod builder;
pub mod dependencies;
pub mod media_types;
pub mod table;
pub mod extrema;
pub mod sampled_parse;
pub mod dataset;
pub mod function_ids;
pub mod messages;
