//! The files a model repository provides, and the source they are fetched from.
use vstd::prelude::*;
use vstd::string::StringExecFns;
use crate::config::ModelConfig;
use crate::error::TaggerError;

verus! {

/// A file of a model repository on the hub.
pub trait HfFile: Sized {
    /// The repository that holds the file.
    spec fn spec_repo_id(&self) -> Seq<char>;

    /// The revision asked for; `None` for the default one.
    spec fn spec_revision(&self) -> Option<String>;

    /// The file's path in the repository.
    spec fn spec_file_path(&self) -> Seq<char>;

    /// The path the file usually has.
    spec fn usual_path() -> Seq<char>;

    /// The file under its usual name in repository `repo_id`, at the default revision.
    fn new(repo_id: &str) -> (r: Self)
        ensures
            r.spec_repo_id() == repo_id@,
            r.spec_revision() is None,
            r.spec_file_path() == Self::usual_path(),
    ;

    fn repo_id(&self) -> (r: String)
        ensures
            r@ == self.spec_repo_id(),
    ;

    fn revision(&self) -> (r: Option<String>)
        ensures
            r == self.spec_revision(),
    ;

    fn file_path(&self) -> (r: String)
        ensures
            r@ == self.spec_file_path(),
    ;
}

/// Where a model's files come from: the hub, a local cache or memory.
pub trait ArtifactSource {
    /// The model configuration stored in `file`.
    fn model_config(&self, file: &ConfigFile) -> Result<ModelConfig, TaggerError>;

    /// The text of the tag table stored in `file`.
    fn tag_table(&self, file: &TagCSVFile) -> Result<String, TaggerError>;
}

/// The model weights.
#[derive(Debug, Clone)]
pub struct TaggerModelFile {
    pub repo_id: String,
    pub revision: Option<String>,
    pub model_path: String,
}

impl TaggerModelFile {
    /// The weights under `model_path` in repository `repo_id` at `revision`.
    pub fn custom(repo_id: &str, revision: Option<String>, model_path: &str) -> (r: Self)
        ensures
            r.repo_id@ == repo_id@,
            r.revision == revision,
            r.model_path@ == model_path@,
    {
        TaggerModelFile {
            repo_id: String::from_str(repo_id),
            revision,
            model_path: String::from_str(model_path),
        }
    }
}

impl HfFile for TaggerModelFile {
    open spec fn spec_repo_id(&self) -> Seq<char> {
        self.repo_id@
    }

    open spec fn spec_revision(&self) -> Option<String> {
        self.revision
    }

    open spec fn spec_file_path(&self) -> Seq<char> {
        self.model_path@
    }

    open spec fn usual_path() -> Seq<char> {
        "model.onnx"@
    }

    fn new(repo_id: &str) -> Self {
        TaggerModelFile {
            repo_id: String::from_str(repo_id),
            revision: None,
            model_path: String::from_str("model.onnx"),
        }
    }

    fn repo_id(&self) -> String {
        self.repo_id.clone()
    }

    fn revision(&self) -> Option<String> {
        self.revision.clone()
    }

    fn file_path(&self) -> String {
        self.model_path.clone()
    }
}

/// The tag table.
#[derive(Debug, Clone)]
pub struct TagCSVFile {
    pub repo_id: String,
    pub revision: Option<String>,
    pub csv_path: String,
}

impl TagCSVFile {
    /// The tag table under `csv_path` in repository `repo_id` at `revision`.
    pub fn custom(repo_id: &str, revision: Option<String>, csv_path: &str) -> (r: Self)
        ensures
            r.repo_id@ == repo_id@,
            r.revision == revision,
            r.csv_path@ == csv_path@,
    {
        TagCSVFile { repo_id: String::from_str(repo_id), revision, csv_path: String::from_str(csv_path) }
    }
}

impl HfFile for TagCSVFile {
    open spec fn spec_repo_id(&self) -> Seq<char> {
        self.repo_id@
    }

    open spec fn spec_revision(&self) -> Option<String> {
        self.revision
    }

    open spec fn spec_file_path(&self) -> Seq<char> {
        self.csv_path@
    }

    open spec fn usual_path() -> Seq<char> {
        "selected_tags.csv"@
    }

    fn new(repo_id: &str) -> Self {
        TagCSVFile {
            repo_id: String::from_str(repo_id),
            revision: None,
            csv_path: String::from_str("selected_tags.csv"),
        }
    }

    fn repo_id(&self) -> String {
        self.repo_id.clone()
    }

    fn revision(&self) -> Option<String> {
        self.revision.clone()
    }

    fn file_path(&self) -> String {
        self.csv_path.clone()
    }
}

/// The model configuration document.
#[derive(Debug, Clone)]
pub struct ConfigFile {
    pub repo_id: String,
    pub revision: Option<String>,
    pub config_path: String,
}

impl ConfigFile {
    /// The configuration under `config_path` in repository `repo_id` at `revision`.
    pub fn custom(repo_id: &str, revision: Option<String>, config_path: &str) -> (r: Self)
        ensures
            r.repo_id@ == repo_id@,
            r.revision == revision,
            r.config_path@ == config_path@,
    {
        ConfigFile {
            repo_id: String::from_str(repo_id),
            revision,
            config_path: String::from_str(config_path),
        }
    }
}

impl HfFile for ConfigFile {
    open spec fn spec_repo_id(&self) -> Seq<char> {
        self.repo_id@
    }

    open spec fn spec_revision(&self) -> Option<String> {
        self.revision
    }

    open spec fn spec_file_path(&self) -> Seq<char> {
        self.config_path@
    }

    open spec fn usual_path() -> Seq<char> {
        "config.json"@
    }

    fn new(repo_id: &str) -> Self {
        ConfigFile {
            repo_id: String::from_str(repo_id),
            revision: None,
            config_path: String::from_str("config.json"),
        }
    }

    fn repo_id(&self) -> String {
        self.repo_id.clone()
    }

    fn revision(&self) -> Option<String> {
        self.revision.clone()
    }

    fn file_path(&self) -> String {
        self.config_path.clone()
    }
}

} // verus!
