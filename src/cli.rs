//! What the command line decides: model presets, the files a selection names, which
//! inputs are images, and the backend a build targets.
use vstd::prelude::*;
use vstd::string::StringExecFns;
use crate::file::{ConfigFile, TagCSVFile, TaggerModelFile};

verus! {

/// A model known by a short name, published in a fixed repository.
pub trait ModelPreset: Sized {
    /// The repository that holds the model.
    spec fn preset_repo_id(&self) -> Seq<char>;

    fn repo_id(&self) -> (r: String)
        ensures
            r@ == self.preset_repo_id(),
    ;

    /// The preset used when none is named.
    spec fn default_preset() -> Self;

    fn default() -> (r: Self)
        ensures
            r == Self::default_preset(),
    ;
}

/// The taggers of the third series.
#[derive(Debug, Clone, Copy, PartialEq, Eq, Structural)]
pub enum V3Model {
    Vit,
    SwinV2,
    Convnext,
    VitLarge,
    Eva02Large,
}

impl ModelPreset for V3Model {
    open spec fn preset_repo_id(&self) -> Seq<char> {
        match self {
            V3Model::Vit => "SmilingWolf/wd-vit-tagger-v3"@,
            V3Model::SwinV2 => "SmilingWolf/wd-swinv2-tagger-v3"@,
            V3Model::Convnext => "SmilingWolf/wd-convnext-tagger-v3"@,
            V3Model::VitLarge => "SmilingWolf/wd-vit-large-tagger-v3"@,
            V3Model::Eva02Large => "SmilingWolf/wd-eva02-large-tagger-v3"@,
        }
    }

    fn repo_id(&self) -> (r: String) {
        match self {
            V3Model::Vit => String::from_str("SmilingWolf/wd-vit-tagger-v3"),
            V3Model::SwinV2 => String::from_str("SmilingWolf/wd-swinv2-tagger-v3"),
            V3Model::Convnext => String::from_str("SmilingWolf/wd-convnext-tagger-v3"),
            V3Model::VitLarge => String::from_str("SmilingWolf/wd-vit-large-tagger-v3"),
            V3Model::Eva02Large => String::from_str("SmilingWolf/wd-eva02-large-tagger-v3"),
        }
    }

    open spec fn default_preset() -> Self {
        V3Model::SwinV2
    }

    fn default() -> (r: Self) {
        V3Model::SwinV2
    }
}

impl V3Model {
    /// The preset's short name.
    pub fn to_string(&self) -> (r: String)
        ensures
            r@ == match self {
                V3Model::Vit => "vit"@,
                V3Model::SwinV2 => "swin-v2"@,
                V3Model::Convnext => "convnext"@,
                V3Model::VitLarge => "vit-large"@,
                V3Model::Eva02Large => "eva02-large"@,
            },
    {
        match self {
            V3Model::Vit => String::from_str("vit"),
            V3Model::SwinV2 => String::from_str("swin-v2"),
            V3Model::Convnext => String::from_str("convnext"),
            V3Model::VitLarge => String::from_str("vit-large"),
            V3Model::Eva02Large => String::from_str("eva02-large"),
        }
    }
}

/// The taggers of the second series.
#[derive(Debug, Clone, Copy, PartialEq, Eq, Structural)]
pub enum V2Model {
    Vit,
    Moat,
    SwinV2,
    Convnext,
    ConvnextV2,
}

impl ModelPreset for V2Model {
    open spec fn preset_repo_id(&self) -> Seq<char> {
        match self {
            V2Model::Vit => "SmilingWolf/wd-v1-4-vit-tagger-v2"@,
            V2Model::Moat => "SmilingWolf/wd-v1-4-moat-tagger-v2"@,
            V2Model::SwinV2 => "SmilingWolf/wd-v1-4-swinv2-tagger-v2"@,
            V2Model::Convnext => "SmilingWolf/wd-v1-4-convnext-tagger-v2"@,
            V2Model::ConvnextV2 => "SmilingWolf/wd-v1-4-convnextv2-tagger-v2"@,
        }
    }

    fn repo_id(&self) -> (r: String) {
        match self {
            V2Model::Vit => String::from_str("SmilingWolf/wd-v1-4-vit-tagger-v2"),
            V2Model::Moat => String::from_str("SmilingWolf/wd-v1-4-moat-tagger-v2"),
            V2Model::SwinV2 => String::from_str("SmilingWolf/wd-v1-4-swinv2-tagger-v2"),
            V2Model::Convnext => String::from_str("SmilingWolf/wd-v1-4-convnext-tagger-v2"),
            V2Model::ConvnextV2 => String::from_str("SmilingWolf/wd-v1-4-convnextv2-tagger-v2"),
        }
    }

    open spec fn default_preset() -> Self {
        V2Model::SwinV2
    }

    fn default() -> (r: Self) {
        V2Model::SwinV2
    }
}

impl V2Model {
    /// The preset's short name.
    pub fn to_string(&self) -> (r: String)
        ensures
            r@ == match self {
                V2Model::Vit => "vit"@,
                V2Model::Moat => "moat"@,
                V2Model::SwinV2 => "swin-v2"@,
                V2Model::Convnext => "convnext"@,
                V2Model::ConvnextV2 => "convnext-v2"@,
            },
    {
        match self {
            V2Model::Vit => String::from_str("vit"),
            V2Model::Moat => String::from_str("moat"),
            V2Model::SwinV2 => String::from_str("swin-v2"),
            V2Model::Convnext => String::from_str("convnext"),
            V2Model::ConvnextV2 => String::from_str("convnext-v2"),
        }
    }
}

/// A model given by repository and file names.
#[derive(Debug, Clone)]
pub struct CustomModel {
    pub repo_id: String,
    pub model_file: String,
    pub config_file: String,
    pub tags_file: String,
}

/// The model a command line selects.
#[derive(Debug, Clone)]
pub enum ModelVersion {
    V2 { model: V2Model },
    V3 { model: V3Model },
    Custom(CustomModel),
}

/// The repository a selection names; the default third-series preset when there is
/// none.
pub open spec fn selected_repo_id(model: Option<ModelVersion>) -> Seq<char> {
    match model {
        Some(ModelVersion::V2 { model }) => model.preset_repo_id(),
        Some(ModelVersion::V3 { model }) => model.preset_repo_id(),
        Some(ModelVersion::Custom(c)) => c.repo_id@,
        None => V3Model::SwinV2.preset_repo_id(),
    }
}

/// The weights, configuration and tag table a selection names, at the default
/// revision: a custom model's own file names, else `model.onnx`, `config.json` and
/// `selected_tags.csv`.
pub fn selected_files(model: &Option<ModelVersion>) -> (r: (TaggerModelFile, ConfigFile, TagCSVFile))
    ensures
        r.0.repo_id@ == selected_repo_id(*model),
        r.1.repo_id@ == selected_repo_id(*model),
        r.2.repo_id@ == selected_repo_id(*model),
        r.0.revision is None && r.1.revision is None && r.2.revision is None,
        match *model {
            Some(ModelVersion::Custom(c)) => r.0.model_path@ == c.model_file@ && r.1.config_path@
                == c.config_file@ && r.2.csv_path@ == c.tags_file@,
            _ => r.0.model_path@ == "model.onnx"@ && r.1.config_path@ == "config.json"@ && r.2.csv_path@
                == "selected_tags.csv"@,
        },
{
    let repo_id = match model {
        Some(ModelVersion::V2 { model }) => model.repo_id(),
        Some(ModelVersion::V3 { model }) => model.repo_id(),
        Some(ModelVersion::Custom(c)) => c.repo_id.clone(),
        None => V3Model::SwinV2.repo_id(),
    };
    match model {
        Some(ModelVersion::Custom(c)) => (
            TaggerModelFile::custom(repo_id.as_str(), None, c.model_file.as_str()),
            ConfigFile::custom(repo_id.as_str(), None, c.config_file.as_str()),
            TagCSVFile::custom(repo_id.as_str(), None, c.tags_file.as_str()),
        ),
        _ => (
            TaggerModelFile::custom(repo_id.as_str(), None, "model.onnx"),
            ConfigFile::custom(repo_id.as_str(), None, "config.json"),
            TagCSVFile::custom(repo_id.as_str(), None, "selected_tags.csv"),
        ),
    }
}

/// Whether a lower-cased file extension is one of an image: `jpg`, `jpeg`, `png` or
/// `webp`.
pub open spec fn image_extension(ext: Seq<char>) -> bool {
    ext == "jpg"@ || ext == "jpeg"@ || ext == "png"@ || ext == "webp"@
}

/// What `str::to_lowercase` makes of a text.
pub uninterp spec fn lower_of(s: Seq<char>) -> Seq<char>;

/// Relies on `str::to_lowercase`: the result depends on the characters alone.
#[verifier::external_body]
fn lowercase(s: &str) -> (r: String)
    ensures
        r@ == lower_of(s@),
{
    s.to_lowercase()
}

/// Whether a path holds neither a backslash nor a colon, the characters that only some platforms
/// read as separators or prefixes: on such a path every platform finds the same
/// extension.
pub open spec fn plain_path(path: Seq<char>) -> bool {
    forall|i: int| 0 <= i < path.len() ==> path[i] != '\\' && path[i] != ':'
}

/// What `Path::extension` finds in a plain path.
pub uninterp spec fn extension_of(path: Seq<char>) -> Option<Seq<char>>;

/// Relies on `Path::extension`: the text after the last dot of the path's file name,
/// if there is one, a function of the path's text where no platform-specific separator
/// or prefix can occur; `to_string_lossy` turns it back into a string.
#[verifier::external_body]
fn path_extension(path: &str) -> (r: Option<String>)
    ensures
        plain_path(path@) ==> match r {
            Some(e) => extension_of(path@) == Some(e@),
            None => extension_of(path@) is None,
        },
{
    std::path::Path::new(path).extension().map(|e| e.to_string_lossy().into_owned())
}

/// Whether an already lower-cased extension is one of an image.
pub fn is_listed_extension(ext: &str) -> (r: bool)
    ensures
        r == image_extension(ext@),
{
    let e = String::from_str(ext);
    e == String::from_str("jpg") || e == String::from_str("jpeg") || e == String::from_str("png")
        || e == String::from_str("webp")
}

/// Whether a file extension, in any case, is one of an image.
pub fn is_image_extension(ext: &str) -> (r: bool)
    ensures
        r == image_extension(lower_of(ext@)),
{
    let lower = lowercase(ext);
    is_listed_extension(lower.as_str())
}

/// Whether a path names an image file, by its extension in any case.
pub fn is_image(path: &str) -> (r: bool)
    ensures
        plain_path(path@) ==> r == match extension_of(path@) {
            Some(e) => image_extension(lower_of(e)),
            None => false,
        },
{
    match path_extension(path) {
        Some(ext) => is_image_extension(ext.as_str()),
        None => false,
    }
}

/// The name of the backend a build targets: TensorRT before CUDA before the CPU.
pub fn target_device_type(cuda: bool, tensorrt: bool) -> (r: String)
    ensures
        r@ == if tensorrt {
            "TensorRT"@
        } else if cuda {
            "CUDA"@
        } else {
            "CPU"@
        },
{
    if tensorrt {
        String::from_str("TensorRT")
    } else if cuda {
        String::from_str("CUDA")
    } else {
        String::from_str("CPU")
    }
}

} // verus!
