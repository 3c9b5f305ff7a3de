//! The performance predictor: which way it predicts.
use vstd::prelude::*;

use crate::ml::MLError;
use crate::text::to_string;

verus! {

/// A performance predictor: a loaded model, or the heuristic as fallback.
pub struct PerformancePredictor {
    pub model_loaded: bool,
    pub use_heuristic_fallback: bool,
}

/// How a prediction is made.
#[derive(Clone, Copy, Debug, PartialEq, Eq, Structural)]
pub enum PredictionSource {
    Model,
    Heuristic,
}

impl PerformancePredictor {
    /// A predictor without a model, falling back on the heuristic.
    pub fn new() -> (r: Result<Self, MLError>)
        ensures
            r matches Ok(p) && !p.model_loaded && p.use_heuristic_fallback,
    {
        Ok(PerformancePredictor { model_loaded: false, use_heuristic_fallback: true })
    }

    /// A predictor without a model, falling back on the heuristic.
    pub fn with_heuristic_fallback() -> (p: Self)
        ensures
            !p.model_loaded,
            p.use_heuristic_fallback,
    {
        PerformancePredictor { model_loaded: false, use_heuristic_fallback: true }
    }

    /// How this predictor predicts: with its model when loaded, else with the heuristic when
    /// allowed, else not at all.
    pub fn prediction_source(&self) -> (r: Result<PredictionSource, MLError>)
        ensures
            match r {
                Ok(s) => if self.model_loaded {
                    s == PredictionSource::Model
                } else {
                    self.use_heuristic_fallback && s == PredictionSource::Heuristic
                },
                Err(e) => !self.model_loaded && !self.use_heuristic_fallback && (e matches MLError::ModelNotLoaded(
                    m,
                ) && m@ == "No model loaded"@),
            },
    {
        if self.model_loaded {
            Ok(PredictionSource::Model)
        } else if self.use_heuristic_fallback {
            Ok(PredictionSource::Heuristic)
        } else {
            Err(MLError::ModelNotLoaded(to_string("No model loaded")))
        }
    }
}

} // verus!
