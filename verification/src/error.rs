use vstd::prelude::*;
use vstd::string::*;

verus! {

/// The one error type that every port of the engine reports.
#[derive(Debug, PartialEq, Eq)]
pub enum DomainError {
    Audio(String),
    Model(String),
    Inference(String),
    Io(String),
    Unsupported(String),
}

impl DomainError {
    /// An error in capturing, decoding or playing audio.
    pub fn audio(e: String) -> (r: Self)
        ensures
            r == DomainError::Audio(e),
    {
        DomainError::Audio(e)
    }

    /// An error in fetching or loading a model.
    pub fn model(e: String) -> (r: Self)
        ensures
            r == DomainError::Model(e),
    {
        DomainError::Model(e)
    }

    /// An error while running a model.
    pub fn inference(e: String) -> (r: Self)
        ensures
            r == DomainError::Inference(e),
    {
        DomainError::Inference(e)
    }

    /// An error in reading or writing files.
    pub fn io(e: String) -> (r: Self)
        ensures
            r == DomainError::Io(e),
    {
        DomainError::Io(e)
    }

    /// A request that the engine does not support.
    pub fn unsupported(e: String) -> (r: Self)
        ensures
            r == DomainError::Unsupported(e),
    {
        DomainError::Unsupported(e)
    }

    /// The text that the error is shown as: its kind, a colon and its detail.
    pub open spec fn spec_message(&self) -> Seq<char> {
        match self {
            DomainError::Audio(s) => "audio error: "@ + s@,
            DomainError::Model(s) => "model error: "@ + s@,
            DomainError::Inference(s) => "inference error: "@ + s@,
            DomainError::Io(s) => "io error: "@ + s@,
            DomainError::Unsupported(s) => "unsupported: "@ + s@,
        }
    }

    /// The text that the error is shown as, such as `audio error: no device`.
    pub fn message(&self) -> (r: String)
        ensures
            r@ == self.spec_message(),
    {
        let (prefix, detail) = match self {
            DomainError::Audio(s) => ("audio error: ", s),
            DomainError::Model(s) => ("model error: ", s),
            DomainError::Inference(s) => ("inference error: ", s),
            DomainError::Io(s) => ("io error: ", s),
            DomainError::Unsupported(s) => ("unsupported: ", s),
        };
        let mut r = String::from_str(prefix);
        r.append(detail.as_str());
        r
    }
}

} // verus!
