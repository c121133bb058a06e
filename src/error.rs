use vstd::prelude::*;
use vstd::string::StringExecFns;

verus! {

/// The kinds of failure the library reports.
#[derive(Debug, Clone)]
pub enum TaggerError {
    /// Fetching an artifact from the model hub or its cache failed.
    Hf(String),
    /// The inference engine failed to build a session or to run it.
    Ort(String),
    /// The compute backend could not be configured.
    Cuda(String),
    /// The image preprocessor was given an unusable input shape.
    Processor(String),
    /// The tag table is malformed, or a probability vector does not match it.
    Tag(String),
    /// The model configuration document could not be read or parsed.
    Io(String),
}

/// The prefix that names each kind of error in its message.
pub open spec fn error_prefix(e: TaggerError) -> Seq<char> {
    match e {
        TaggerError::Hf(_) => "HuggingFace Error: "@,
        TaggerError::Ort(_) => "ONNX Runtime Error: "@,
        TaggerError::Cuda(_) => "CUDA Error: "@,
        TaggerError::Processor(_) => "Processor Error: "@,
        TaggerError::Tag(_) => "Tag Error: "@,
        TaggerError::Io(_) => "IO Error: "@,
    }
}

/// The detail text that an error carries.
pub open spec fn error_detail(e: TaggerError) -> Seq<char> {
    match e {
        TaggerError::Hf(m) => m@,
        TaggerError::Ort(m) => m@,
        TaggerError::Cuda(m) => m@,
        TaggerError::Processor(m) => m@,
        TaggerError::Tag(m) => m@,
        TaggerError::Io(m) => m@,
    }
}

impl TaggerError {
    /// The human-readable message: the kind's prefix followed by the detail.
    pub fn to_string(&self) -> (r: String)
        ensures
            r@ == error_prefix(*self) + error_detail(*self),
    {
        match self {
            TaggerError::Hf(m) => String::from_str("HuggingFace Error: ").concat(m.as_str()),
            TaggerError::Ort(m) => String::from_str("ONNX Runtime Error: ").concat(m.as_str()),
            TaggerError::Cuda(m) => String::from_str("CUDA Error: ").concat(m.as_str()),
            TaggerError::Processor(m) => String::from_str("Processor Error: ").concat(
                m.as_str(),
            ),
            TaggerError::Tag(m) => String::from_str("Tag Error: ").concat(m.as_str()),
            TaggerError::Io(m) => String::from_str("IO Error: ").concat(m.as_str()),
        }
    }
}

} // verus!
