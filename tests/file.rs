use wdtagger::file::{ConfigFile, HfFile, TagCSVFile, TaggerModelFile};

#[test]
fn test_get_model() {
    let repo_id = "SmilingWolf/wd-swinv2-tagger-v3".to_string();
    let revision = "main".to_string();
    let model_path = "model.onnx".to_string();

    let model_file = TaggerModelFile::new(&repo_id);

    assert_eq!(&model_file.repo_id(), &repo_id);
    assert_eq!(&model_file.revision(), &None);
    assert_eq!(&model_file.file_path(), &model_path);

    let model_file_custom = TaggerModelFile::custom(&repo_id, Some(revision.clone()), &model_path);

    assert_eq!(model_file_custom.revision(), Some(revision));
    assert_eq!(model_file_custom.file_path(), model_path);
}

#[test]
fn test_get_tag_csv() {
    let repo_id = "SmilingWolf/wd-swinv2-tagger-v3".to_string();
    let revision = "main".to_string();
    let csv_path = "selected_tags.csv".to_string();

    let tag_csv = TagCSVFile::new(&repo_id);

    assert_eq!(&tag_csv.repo_id(), &repo_id);
    assert_eq!(&tag_csv.revision(), &None);
    assert_eq!(&tag_csv.file_path(), &csv_path);

    let tag_csv_custom = TagCSVFile::custom(&repo_id, Some(revision.clone()), &csv_path);

    assert_eq!(tag_csv_custom.revision(), Some(revision));
    assert_eq!(tag_csv_custom.repo_id(), repo_id);
}

#[test]
fn test_get_config() {
    let repo_id = "SmilingWolf/wd-swinv2-tagger-v3".to_string();
    let revision = "main".to_string();
    let config_path = "config.json".to_string();

    let config_file = ConfigFile::new(&repo_id);

    assert_eq!(&config_file.repo_id(), &repo_id);
    assert_eq!(&config_file.revision(), &None);
    assert_eq!(&config_file.file_path(), &config_path);

    let config_file_custom = ConfigFile::custom(&repo_id, Some(revision.clone()), &config_path);

    assert_eq!(config_file_custom.revision(), Some(revision));
    assert_eq!(config_file_custom.file_path(), config_path);
}
