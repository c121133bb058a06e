//! Model metadata: the declared input shape and class count of a model.
use vstd::prelude::*;
use crate::error::TaggerError;
use crate::file::{ArtifactSource, ConfigFile, HfFile};

verus! {

/// The model's configuration document.
#[derive(Debug, Clone)]
pub struct ModelConfig {
    /// The network architecture (informational).
    pub architecture: String,
    pub num_classes: u32,
    /// The width of the feature layer (informational).
    pub num_features: u32,
    pub pretrained_cfg: PretrainedCfg,
}

/// How the model was trained to be fed.
#[derive(Debug, Clone)]
pub struct PretrainedCfg {
    /// `[channels, height, width]`.
    pub input_size: Vec<u32>,
    pub fixed_input_size: bool,
    pub num_classes: u32,
}

impl ModelConfig {
    /// The configuration of repository `repo_id`, its `config.json` at the default
    /// revision as `source` provides it.
    pub fn from_pretrained<S: ArtifactSource>(repo_id: &str, source: &S) -> Result<Self, TaggerError> {
        source.model_config(&ConfigFile::new(repo_id))
    }
}

} // verus!
