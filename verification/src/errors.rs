//! The error values the toolkit reports.
use vstd::prelude::*;
use vstd::string::StringExecFns;

verus! {

/// `std::io::Error`, the cause of an input/output failure. The toolkit
/// carries it in [`NeuroxError::Io`] and never looks inside; nothing is
/// claimed of it.
#[verifier::external_type_specification]
#[verifier::external_body]
pub struct ExIoError(std::io::Error);

/// The primary error type for this crate.
#[derive(Debug)]
pub enum NeuroxError {
    /// Tensor shapes are incompatible for an operation.
    ShapeMismatch(String),
    /// An input/output failure reported by the standard library.
    Io(std::io::Error),
    /// An argument passed to a function is invalid.
    InvalidArgument(String),
    /// Any other failure.
    Other(String),
}

/// A specialized `Result` type for this crate, using `NeuroxError`.
pub type NeuroxResult<T> = Result<T, NeuroxError>;

/// The result is a shape mismatch whose description is `text`.
pub open spec fn is_shape_mismatch<T>(res: NeuroxResult<T>, text: Seq<char>) -> bool {
    res matches Err(NeuroxError::ShapeMismatch(m)) && m@ == text
}

/// The result is an invalid-argument error whose description is `text`.
pub open spec fn is_invalid_argument<T>(res: NeuroxResult<T>, text: Seq<char>) -> bool {
    res matches Err(NeuroxError::InvalidArgument(m)) && m@ == text
}

/// The text of an input/output failure, as `Display` of `std::io::Error`
/// words it. The text depends on the failure and on the platform, so
/// nothing is claimed of it.
#[verifier::external_body]
fn io_error_text(e: &std::io::Error) -> String {
    format!("{}", e)
}

impl NeuroxError {
    /// The words that name the kind of this error and precede its
    /// description.
    pub open spec fn prefix(&self) -> Seq<char> {
        match self {
            NeuroxError::ShapeMismatch(_) => "shape mismatch: "@,
            NeuroxError::Io(_) => "io error: "@,
            NeuroxError::InvalidArgument(_) => "invalid argument: "@,
            NeuroxError::Other(_) => "other: "@,
        }
    }

    /// The message of this error: the kind, then the description.
    pub fn message(&self) -> (text: String)
        ensures
            text@.len() >= self.prefix().len(),
            text@.take(self.prefix().len() as int) == self.prefix(),
            self matches NeuroxError::ShapeMismatch(m) ==> text@ == self.prefix() + m@,
            self matches NeuroxError::InvalidArgument(m) ==> text@ == self.prefix() + m@,
            self matches NeuroxError::Other(m) ==> text@ == self.prefix() + m@,
    {
        match self {
            NeuroxError::ShapeMismatch(m) => {
                let text = "shape mismatch: ".to_owned().concat(m.as_str());
                assert(text@.take(self.prefix().len() as int) =~= self.prefix());
                text
            },
            NeuroxError::Io(e) => {
                let text = "io error: ".to_owned().concat(io_error_text(e).as_str());
                assert(text@.take(self.prefix().len() as int) =~= self.prefix());
                text
            },
            NeuroxError::InvalidArgument(m) => {
                let text = "invalid argument: ".to_owned().concat(m.as_str());
                assert(text@.take(self.prefix().len() as int) =~= self.prefix());
                text
            },
            NeuroxError::Other(m) => {
                let text = "other: ".to_owned().concat(m.as_str());
                assert(text@.take(self.prefix().len() as int) =~= self.prefix());
                text
            },
        }
    }

    /// A shape mismatch with the given description.
    pub fn shape_mismatch(text: &str) -> (e: Self)
        ensures
            e matches NeuroxError::ShapeMismatch(m) && m@ == text@,
    {
        NeuroxError::ShapeMismatch(text.to_owned())
    }

    /// An invalid-argument error with the given description.
    pub fn invalid_argument(text: &str) -> (e: Self)
        ensures
            e matches NeuroxError::InvalidArgument(m) && m@ == text@,
    {
        NeuroxError::InvalidArgument(text.to_owned())
    }
}

} // verus!
