//! Reading a configuration from a layered document, and writing it back.

use crate::codec::{parsed, pretty};
use crate::config::{Config, ConfigView};
use crate::decode::{config, config_of};
use crate::encode::{encode, encoded};
use crate::error::{malformed, misshapen, outcome, ConfigError, ConfigErrorView};
use crate::fields::lemma_encoded_well_keyed;
use crate::json::{Json, JsonValue};
use crate::layering::{layer, layered};
use crate::validate::{check_config, config_fault};
use vstd::prelude::*;

verus! {

/// The configuration that a document states, field for field, or what is
/// wrong with the document.
pub open spec fn decoded(document: JsonValue) -> Result<ConfigView, ConfigErrorView> {
    match config_fault(document) {
        Some(error) => Err(error),
        None => Ok(config_of(document)),
    }
}

/// The configuration that a layered document states once every variant is
/// filled, or what is wrong with the document.
pub open spec fn resolved(document: JsonValue) -> Result<ConfigView, ConfigErrorView> {
    match layered(document) {
        Err(error) => Err(error),
        Ok(full) => decoded(full),
    }
}

/// The configuration that a text states, or what is wrong with it.
pub open spec fn read(text: Seq<char>) -> Result<ConfigView, ConfigErrorView> {
    match parsed(text) {
        Some(document) => resolved(document),
        None => Err(malformed("config"@, "is not valid JSON"@)),
    }
}

/// The text of the smallest document that states a configuration, or the
/// error where that document cannot be written.
pub open spec fn written_text(options: ConfigView) -> Result<Seq<char>, ConfigErrorView> {
    match pretty(encoded(options)) {
        Some(text) => Ok(text),
        None => Err(malformed("config"@, "cannot be written as JSON"@)),
    }
}

impl Config {
    /// Reads the document as a configuration, field for field. Every name must
    /// be known at its place and every value must have the shape of its field.
    pub fn decode(document: &Json) -> (r: Result<Config, ConfigError>)
        ensures
            outcome(r) == decoded(document@),
    {
        match check_config(document) {
            Some(error) => Err(error),
            None => Ok(config(document)),
        }
    }

    /// Resolves a layered document: fills every variant with what the document
    /// says for all of them, then reads the result as a configuration.
    pub fn resolve(document: &Json) -> (r: Result<Config, ConfigError>)
        ensures
            outcome(r) == resolved(document@),
    {
        match layer(document) {
            Ok(full) => Config::decode(&full),
            Err(error) => Err(error),
        }
    }

    /// Parses an instance of this config from a string of JSON.
    pub fn from_json_str(json_str: &str) -> (r: Result<Config, ConfigError>)
        ensures
            outcome(r) == read(json_str@),
    {
        match Json::from_text(json_str) {
            Some(document) => Config::resolve(&document),
            None => Err(misshapen("config", "is not valid JSON")),
        }
    }

    /// The smallest document that states this configuration.
    pub fn to_json(&self) -> (r: Json)
        ensures
            r@ == encoded(self@),
    {
        encode(self)
    }

    /// Serializes an instance of this config to a string of pretty-printed JSON.
    pub fn to_json_string(&self) -> (r: Result<String, ConfigError>)
        ensures
            outcome(r) == written_text(self@),
    {
        let document = encode(self);
        proof {
            lemma_encoded_well_keyed(self@);
        }
        match document.to_pretty_text() {
            Some(text) => Ok(text),
            None => Err(misshapen("config", "cannot be written as JSON")),
        }
    }
}

} // verus!
