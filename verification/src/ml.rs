//! Performance prediction with a local model and federated training: the decisions that do not
//! involve the model's numbers.
use vstd::prelude::*;

use crate::text::{push_str, to_string};

pub mod federated;
pub mod models;
pub mod onnx_runtime;

verus! {

/// Why a prediction or a model operation failed.
#[derive(Debug)]
pub enum MLError {
    ModelNotLoaded(String),
    InferenceFailed(String),
    FeatureExtractionFailed(String),
    FeatureNotEnabled,
}

/// The message of a model error.
pub open spec fn ml_error_text(e: MLError) -> Seq<char> {
    match e {
        MLError::ModelNotLoaded(m) => "Model not loaded: "@ + m@,
        MLError::InferenceFailed(m) => "Inference failed: "@ + m@,
        MLError::FeatureExtractionFailed(m) => "Feature extraction failed: "@ + m@,
        MLError::FeatureNotEnabled => "ML feature not enabled. Build with --features ml-local"@,
    }
}

impl MLError {
    /// The message of the error.
    pub fn message(&self) -> (r: String)
        ensures
            r@ == ml_error_text(*self),
    {
        match self {
            MLError::ModelNotLoaded(m) => {
                let mut r = to_string("Model not loaded: ");
                push_str(&mut r, m.as_str());
                r
            },
            MLError::InferenceFailed(m) => {
                let mut r = to_string("Inference failed: ");
                push_str(&mut r, m.as_str());
                r
            },
            MLError::FeatureExtractionFailed(m) => {
                let mut r = to_string("Feature extraction failed: ");
                push_str(&mut r, m.as_str());
                r
            },
            MLError::FeatureNotEnabled => to_string(
                "ML feature not enabled. Build with --features ml-local",
            ),
        }
    }
}

} // verus!
