//! Layered build configuration, and the decisions of the pipeline that
//! regenerates build files and compares them with those that are checked in.
//!
//! A configuration is written as one JSON document. What the document says at
//! its top level holds for each of its variants unless the variant says
//! otherwise, and what it says of a package holds for that package in each
//! variant unless the variant says otherwise. [`config::Config::from_json_str`]
//! resolves such a document into a typed [`config::Config`];
//! [`config::Config::to_json_string`] writes a configuration as the smallest
//! document that states it.
//!
//! The steps of the resolution are [`layering`], [`validate`] and [`decode`];
//! [`encode`] is the way back. [`laws`], [`round_trip`] and [`gathering`] state
//! what holds of every document, of every configuration and of every run.

pub mod codec;
pub mod config;
pub mod decode;
pub mod encode;
pub mod error;
pub mod faults;
pub mod fields;
pub mod filling;
pub mod gathering;
pub mod identity;
pub mod json;
pub mod laws;
pub mod layering;
pub mod pipeline;
pub mod resolve;
pub mod round_trip;
pub mod schema;
pub mod settled;
pub mod table;
pub mod text;
pub mod validate;
