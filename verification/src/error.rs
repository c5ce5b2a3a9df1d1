//! Why a configuration document is refused.

use crate::text::{describe, described};
use vstd::prelude::*;

verus! {

/// The reason for which a document is not a configuration.
#[derive(Clone, Debug, PartialEq, Eq)]
pub enum ConfigError {
    /// The document does not have the shape of a configuration; the description
    /// names the place and what was expected there.
    Malformed(String),
    /// A field that its place does not know; the path names the place and the field.
    UnknownField(String),
}

/// The model of a [`ConfigError`].
pub enum ConfigErrorView {
    Malformed(Seq<char>),
    UnknownField(Seq<char>),
}

impl DeepView for ConfigError {
    type V = ConfigErrorView;

    open spec fn deep_view(&self) -> ConfigErrorView {
        match self {
            ConfigError::Malformed(description) => ConfigErrorView::Malformed(description@),
            ConfigError::UnknownField(path) => ConfigErrorView::UnknownField(path@),
        }
    }
}

impl View for ConfigError {
    type V = ConfigErrorView;

    open spec fn view(&self) -> ConfigErrorView {
        self.deep_view()
    }
}

/// The model of what a step of the resolution gives: the model of its
/// result, or of the error.
pub open spec fn outcome<T: DeepView>(result: Result<T, ConfigError>) -> Result<T::V, ConfigErrorView> {
    match result {
        Ok(value) => Ok(value.deep_view()),
        Err(error) => Err(error@),
    }
}

/// The error for something that does not have the shape it must have.
pub open spec fn malformed(path: Seq<char>, complaint: Seq<char>) -> ConfigErrorView {
    ConfigErrorView::Malformed(described(path, complaint))
}

/// The error for something that does not have the shape it must have.
pub fn misshapen(path: &str, complaint: &str) -> (error: ConfigError)
    ensures
        error@ == malformed(path@, complaint@),
{
    ConfigError::Malformed(describe(path, complaint))
}

impl ConfigError {
    /// The text of the error: what kind it is, then its description or path.
    pub fn message(&self) -> (text: String)
        ensures
            text@ == match self@ {
                ConfigErrorView::Malformed(description) => "malformed config: "@ + description,
                ConfigErrorView::UnknownField(path) => "unknown field: "@ + path,
            },
    {
        match self {
            ConfigError::Malformed(description) => {
                let mut text = "malformed config: ".to_string();
                text.append(description.as_str());
                text
            },
            ConfigError::UnknownField(path) => {
                let mut text = "unknown field: ".to_string();
                text.append(path.as_str());
                text
            },
        }
    }
}

} // verus!
