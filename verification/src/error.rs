//! The kinds of failure a recognition can end in.

use crate::config::ConfigError;
use crate::decoder::DecodeError;
use vstd::prelude::*;

verus! {

/// A failed recognition, by the stage that failed.
#[derive(Debug, Clone, PartialEq, Eq)]
pub enum OcrError {
    /// A file or the clipboard could not be accessed.
    Io(String),
    /// An image could not be decoded.
    Image(String),
    /// A computation graph is malformed, a required output is missing, or an
    /// artifact of the model bundle is absent.
    Model(String),
    /// The backend failed while decoding.
    Inference(DecodeError),
    /// The vocabulary could not be loaded, or token ids could not be turned
    /// into text.
    Tokenizer(String),
    /// The generation configuration is incomplete.
    Config(ConfigError),
}

impl DecodeError {
    /// A one-line description of the error.
    pub fn message(&self) -> (s: String)
        ensures
            s@ == self.spec_message(),
    {
        match self {
            DecodeError::NotThreeDimensional => String::from_str(
                "Expected array to have 3 dimensions",
            ),
            DecodeError::EmptyAxis => String::from_str("Expected array to have no empty dimension"),
            DecodeError::LengthMismatch => String::from_str(
                "Expected as many values as the dimensions give",
            ),
            DecodeError::Backend(text) => text.clone(),
        }
    }

    pub open spec fn spec_message(&self) -> Seq<char> {
        match self {
            DecodeError::NotThreeDimensional => "Expected array to have 3 dimensions"@,
            DecodeError::EmptyAxis => "Expected array to have no empty dimension"@,
            DecodeError::LengthMismatch => "Expected as many values as the dimensions give"@,
            DecodeError::Backend(text) => text@,
        }
    }
}

impl OcrError {
    /// A one-line description of the error: the kind, then the detail.
    pub fn message(&self) -> (s: String)
        ensures
            s@ == self.spec_message(),
    {
        match self {
            OcrError::Io(text) => String::from_str("IO error: ").concat(text.as_str()),
            OcrError::Image(text) => String::from_str("Image error: ").concat(text.as_str()),
            OcrError::Model(text) => String::from_str("Model error: ").concat(text.as_str()),
            OcrError::Inference(e) => String::from_str("Inference error: ").concat(
                e.message().as_str(),
            ),
            OcrError::Tokenizer(text) => String::from_str("Tokenizer error: ").concat(
                text.as_str(),
            ),
            OcrError::Config(e) => String::from_str("Config error: ").concat(
                e.message().as_str(),
            ),
        }
    }

    pub open spec fn spec_message(&self) -> Seq<char> {
        match self {
            OcrError::Io(text) => "IO error: "@ + text@,
            OcrError::Image(text) => "Image error: "@ + text@,
            OcrError::Model(text) => "Model error: "@ + text@,
            OcrError::Inference(e) => "Inference error: "@ + e.spec_message(),
            OcrError::Tokenizer(text) => "Tokenizer error: "@ + text@,
            OcrError::Config(e) => "Config error: "@ + ("missing field: "@
                + e.field().spec_name()),
        }
    }
}

} // verus!
