//! A local model file: where it is and whether it is loaded.
use vstd::prelude::*;

use std::path::PathBuf;

use crate::ml::MLError;

verus! {

#[verifier::external_type_specification]
#[verifier::external_body]
pub struct ExPathBuf(std::path::PathBuf);

/// `PathBuf::new`: an empty path; nothing more is stated of it.
pub assume_specification[ std::path::PathBuf::new ]() -> (p: PathBuf);

/// A model and its file.
pub struct ONNXModel {
    pub model_path: PathBuf,
    pub loaded: bool,
}

impl ONNXModel {
    /// The model of a file, loaded.
    pub fn load(model_path: PathBuf) -> (r: Result<Self, MLError>)
        ensures
            r matches Ok(m) && m.loaded && m.model_path == model_path,
    {
        Ok(ONNXModel { model_path, loaded: true })
    }

    /// Whether the model is loaded.
    pub fn is_loaded(&self) -> (b: bool)
        ensures
            b == self.loaded,
    {
        self.loaded
    }

    /// Why inference cannot run on this model, if it cannot: the model is not loaded.
    pub fn inference_refusal(&self) -> (r: Option<MLError>)
        ensures
            match r {
                None => self.loaded,
                Some(e) => !self.loaded && (e matches MLError::ModelNotLoaded(m) && m@
                    == "Model not loaded"@),
            },
    {
        if self.loaded {
            None
        } else {
            Some(MLError::ModelNotLoaded(crate::text::to_string("Model not loaded")))
        }
    }
}

impl Default for ONNXModel {
    /// A model that is not loaded, with an empty path.
    fn default() -> (m: Self)
        ensures
            !m.loaded,
    {
        ONNXModel { model_path: PathBuf::new(), loaded: false }
    }
}

} // verus!
