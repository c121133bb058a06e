use wdtagger::cli::{
    is_image, is_image_extension, selected_files, target_device_type, CustomModel, ModelPreset,
    ModelVersion, V2Model, V3Model,
};
use wdtagger::error::TaggerError;
use wdtagger::tagger::Device;

#[test]
fn presets_name_their_repositories() {
    assert_eq!(V3Model::default().repo_id(), "SmilingWolf/wd-swinv2-tagger-v3");
    assert_eq!(V3Model::Eva02Large.repo_id(), "SmilingWolf/wd-eva02-large-tagger-v3");
    assert_eq!(V2Model::default().repo_id(), "SmilingWolf/wd-v1-4-swinv2-tagger-v2");
    assert_eq!(V2Model::ConvnextV2.repo_id(), "SmilingWolf/wd-v1-4-convnextv2-tagger-v2");
    assert_eq!(V3Model::VitLarge.to_string(), "vit-large");
    assert_eq!(V2Model::ConvnextV2.to_string(), "convnext-v2");
}

#[test]
fn selection_names_the_files() {
    let (m, c, t) = selected_files(&None);
    assert_eq!(m.repo_id, "SmilingWolf/wd-swinv2-tagger-v3");
    assert_eq!((m.model_path.as_str(), c.config_path.as_str(), t.csv_path.as_str()), ("model.onnx", "config.json", "selected_tags.csv"));

    let (m, _, _) = selected_files(&Some(ModelVersion::V2 { model: V2Model::Moat }));
    assert_eq!(m.repo_id, "SmilingWolf/wd-v1-4-moat-tagger-v2");

    let custom = CustomModel {
        repo_id: "me/mine".to_string(),
        model_file: "m.onnx".to_string(),
        config_file: "c.json".to_string(),
        tags_file: "t.csv".to_string(),
    };
    let (m, c, t) = selected_files(&Some(ModelVersion::Custom(custom)));
    assert_eq!((m.repo_id.as_str(), c.repo_id.as_str(), t.repo_id.as_str()), ("me/mine", "me/mine", "me/mine"));
    assert_eq!((m.model_path.as_str(), c.config_path.as_str(), t.csv_path.as_str()), ("m.onnx", "c.json", "t.csv"));
    assert!(m.revision.is_none());
}

#[test]
fn image_files_are_known_by_extension() {
    assert!(is_image("photos/cat.jpg"));
    assert!(is_image("photos/cat.JPEG"));
    assert!(is_image("a.b/cat.WebP"));
    assert!(is_image("x.png"));
    assert!(!is_image("photos/cat.gif"));
    assert!(!is_image("photos/jpg"));
    assert!(!is_image(".png"));
    assert!(is_image_extension("PNG"));
    assert!(!is_image_extension("pn"));
}

#[test]
fn build_backend_names() {
    assert_eq!(target_device_type(false, false), "CPU");
    assert_eq!(target_device_type(true, false), "CUDA");
    assert_eq!(target_device_type(true, true), "TensorRT");
}

#[test]
fn device_lists() {
    assert_eq!(Device::cpu(), vec![Device::Cpu]);
    assert_eq!(Device::cuda(), vec![Device::Cuda]);
    assert_eq!(Device::tensorrt(), vec![Device::TensorRT]);
    assert_eq!(Device::cuda_devices(vec![0, 2]), vec![Device::CudaDevice(0), Device::CudaDevice(2)]);
    assert_eq!(Device::tensorrt_devices(vec![1]), vec![Device::TensorRTDevice(1)]);
    assert!(Device::cuda_devices(vec![]).is_empty());
}

#[test]
fn error_messages_name_their_kind() {
    assert_eq!(TaggerError::Tag("bad".to_string()).to_string(), "Tag Error: bad");
    assert_eq!(TaggerError::Hf("gone".to_string()).to_string(), "HuggingFace Error: gone");
    assert_eq!(TaggerError::Ort("x".to_string()).to_string(), "ONNX Runtime Error: x");
    assert_eq!(TaggerError::Cuda("y".to_string()).to_string(), "CUDA Error: y");
    assert_eq!(TaggerError::Processor("z".to_string()).to_string(), "Processor Error: z");
}
