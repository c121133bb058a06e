use std::collections::HashMap;

use wdtagger::config::{ModelConfig, PretrainedCfg};
use wdtagger::error::TaggerError;
use wdtagger::file::{ArtifactSource, ConfigFile, TagCSVFile};
use wdtagger::processor::ImagePreprocessor;

/// Serves the configuration of known repositories from memory.
struct MemorySource {
    configs: HashMap<String, ModelConfig>,
}

fn swinv2_config() -> ModelConfig {
    ModelConfig {
        architecture: "swinv2_base_window8_256".to_string(),
        num_classes: 10861,
        num_features: 1024,
        pretrained_cfg: PretrainedCfg {
            input_size: vec![3, 448, 448],
            fixed_input_size: true,
            num_classes: 10861,
        },
    }
}

impl MemorySource {
    fn with_repos(repo_ids: &[&str]) -> Self {
        let configs = repo_ids
            .iter()
            .map(|id| (id.to_string(), swinv2_config()))
            .collect();
        MemorySource { configs }
    }
}

impl ArtifactSource for MemorySource {
    fn model_config(&self, file: &ConfigFile) -> Result<ModelConfig, TaggerError> {
        if file.config_path != "config.json" || file.revision.is_some() {
            return Err(TaggerError::Hf(format!("no such file: {}", file.config_path)));
        }
        self.configs
            .get(&file.repo_id)
            .cloned()
            .ok_or_else(|| TaggerError::Hf(format!("no such repository: {}", file.repo_id)))
    }

    fn tag_table(&self, file: &TagCSVFile) -> Result<String, TaggerError> {
        Err(TaggerError::Hf(format!("no such file: {}", file.csv_path)))
    }
}

#[test]
fn test_load_model_config_from_pretrained() {
    let source = MemorySource::with_repos(&["SmilingWolf/wd-swinv2-tagger-v3"]);
    let _config = ModelConfig::from_pretrained("SmilingWolf/wd-swinv2-tagger-v3", &source).unwrap();
}

#[test]
fn test_load_model_config_from_pretrained_many() {
    let repo_ids = vec![
        "SmilingWolf/wd-eva02-large-tagger-v3".to_string(),
        "SmilingWolf/wd-vit-large-tagger-v3".to_string(),
        "SmilingWolf/wd-v1-4-swinv2-tagger-v2".to_string(),
        "SmilingWolf/wd-vit-tagger-v3".to_string(),
        "SmilingWolf/wd-swinv2-tagger-v3".to_string(),
        "SmilingWolf/wd-convnext-tagger-v3".to_string(),
    ];
    let names: Vec<&str> = repo_ids.iter().map(|s| s.as_str()).collect();
    let source = MemorySource::with_repos(&names);

    for repo_id in repo_ids {
        let _config = ModelConfig::from_pretrained(&repo_id, &source);
        assert!(_config.is_ok(), "{}", repo_id);
    }
}

#[test]
fn config_from_unknown_repository_fails() {
    let source = MemorySource::with_repos(&["SmilingWolf/wd-swinv2-tagger-v3"]);
    let r = ModelConfig::from_pretrained("nobody/nothing", &source);
    assert!(matches!(r, Err(TaggerError::Hf(_))));
}

#[test]
fn preprocessor_from_pretrained_takes_input_size() {
    let source = MemorySource::with_repos(&["SmilingWolf/wd-swinv2-tagger-v3"]);
    let p = ImagePreprocessor::from_pretrained("SmilingWolf/wd-swinv2-tagger-v3", &source).unwrap();
    let expected = ImagePreprocessor::from_config(&swinv2_config()).unwrap();
    assert_eq!(format!("{:?}", p), format!("{:?}", expected));
    assert_eq!(format!("{:?}", p), format!("{:?}", ImagePreprocessor::new(3, 448, 448)));
}

#[test]
fn preprocessor_from_config_rejects_wrong_input_size() {
    let mut config = swinv2_config();
    config.pretrained_cfg.input_size = vec![3, 448];
    assert!(matches!(ImagePreprocessor::from_config(&config), Err(TaggerError::Processor(_))));
    config.pretrained_cfg.input_size = vec![3, 448, 448, 1];
    assert!(matches!(ImagePreprocessor::from_config(&config), Err(TaggerError::Processor(_))));
}

#[test]
fn preprocessor_from_config_rejects_other_channel_counts() {
    let mut config = swinv2_config();
    for channels in [0, 1, 4] {
        config.pretrained_cfg.input_size = vec![channels, 448, 448];
        assert!(matches!(ImagePreprocessor::from_config(&config), Err(TaggerError::Processor(_))), "{}", channels);
    }
}
