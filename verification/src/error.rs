//! The errors of the engine.

use vstd::prelude::*;
use vstd::string::*;

use crate::text;

verus! {

/// What went wrong.
#[derive(Clone, Debug)]
pub enum RsinferError {
    /// Reading or writing failed; the text says how.
    Io(String),
    /// A JSON document could not be read; the text says why.
    Json(String),
    /// A safetensors file is malformed.
    SafeTensors(String),
    /// A tensor has another shape than the one that was asked for.
    ShapeMismatch { expected: Vec<usize>, actual: Vec<usize> },
    /// A tensor has a wrong number of dimensions, or an index is out of range.
    DimensionError(String),
    /// The model configuration cannot be used.
    ConfigError(String),
    /// A weight is missing or cannot be used.
    WeightError(String),
    /// The tokenizer failed.
    TokenizerError(String),
    /// The model needs something that the engine does not have.
    Unsupported(String),
}

/// The mathematical value of an error.
pub enum ErrorView {
    Io(Seq<char>),
    Json(Seq<char>),
    SafeTensors(Seq<char>),
    ShapeMismatch { expected: Seq<usize>, actual: Seq<usize> },
    DimensionError(Seq<char>),
    ConfigError(Seq<char>),
    WeightError(Seq<char>),
    TokenizerError(Seq<char>),
    Unsupported(Seq<char>),
}

impl View for RsinferError {
    type V = ErrorView;

    open spec fn view(&self) -> ErrorView {
        match self {
            RsinferError::Io(s) => ErrorView::Io(s@),
            RsinferError::Json(s) => ErrorView::Json(s@),
            RsinferError::SafeTensors(s) => ErrorView::SafeTensors(s@),
            RsinferError::ShapeMismatch { expected, actual } => ErrorView::ShapeMismatch {
                expected: expected@,
                actual: actual@,
            },
            RsinferError::DimensionError(s) => ErrorView::DimensionError(s@),
            RsinferError::ConfigError(s) => ErrorView::ConfigError(s@),
            RsinferError::WeightError(s) => ErrorView::WeightError(s@),
            RsinferError::TokenizerError(s) => ErrorView::TokenizerError(s@),
            RsinferError::Unsupported(s) => ErrorView::Unsupported(s@),
        }
    }
}

/// The line that tells a user what went wrong.
pub open spec fn error_text(e: ErrorView) -> Seq<char> {
    match e {
        ErrorView::Io(s) => "IO error: "@ + s,
        ErrorView::Json(s) => "JSON parse error: "@ + s,
        ErrorView::SafeTensors(s) => "SafeTensors error: "@ + s,
        ErrorView::ShapeMismatch { expected, actual } => "Tensor shape mismatch: expected "@
            + text::bracketed(expected) + ", got "@ + text::bracketed(actual),
        ErrorView::DimensionError(s) => "Tensor dimension error: "@ + s,
        ErrorView::ConfigError(s) => "Model config error: "@ + s,
        ErrorView::WeightError(s) => "Weight loading error: "@ + s,
        ErrorView::TokenizerError(s) => "Tokenizer error: "@ + s,
        ErrorView::Unsupported(s) => "Unsupported feature: "@ + s,
    }
}

impl RsinferError {
    /// The line that tells a user what went wrong.
    pub fn message(&self) -> (r: String)
        ensures
            r@ == error_text(self@),
    {
        match self {
            RsinferError::Io(s) => text::joined("IO error: ", s.as_str()),
            RsinferError::Json(s) => text::joined("JSON parse error: ", s.as_str()),
            RsinferError::SafeTensors(s) => text::joined("SafeTensors error: ", s.as_str()),
            RsinferError::ShapeMismatch { expected, actual } => {
                let mut out = "Tensor shape mismatch: expected ".to_owned();
                text::push_shape(&mut out, expected);
                out.append(", got ");
                text::push_shape(&mut out, actual);
                out
            },
            RsinferError::DimensionError(s) => text::joined("Tensor dimension error: ", s.as_str()),
            RsinferError::ConfigError(s) => text::joined("Model config error: ", s.as_str()),
            RsinferError::WeightError(s) => text::joined("Weight loading error: ", s.as_str()),
            RsinferError::TokenizerError(s) => text::joined("Tokenizer error: ", s.as_str()),
            RsinferError::Unsupported(s) => text::joined("Unsupported feature: ", s.as_str()),
        }
    }
}

/// The error that names two shapes.
pub fn shape_mismatch(expected: Vec<usize>, actual: Vec<usize>) -> (e: RsinferError)
    ensures
        e@ == (ErrorView::ShapeMismatch { expected: expected@, actual: actual@ }),
{
    RsinferError::ShapeMismatch { expected, actual }
}

/// A dimension error with a fixed text.
pub fn dimension_error(message: &str) -> (e: RsinferError)
    ensures
        e@ == ErrorView::DimensionError(message@),
{
    RsinferError::DimensionError(message.to_owned())
}

} // verus!
