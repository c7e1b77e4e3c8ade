//! Why a cache operation failed.

use vstd::prelude::*;
use vstd::string::StringExecFns;
use crate::text::concat;

verus! {

#[verifier::external_type_specification]
#[verifier::external_body]
pub struct ExIoErrorKind(std::io::ErrorKind);

/// `ErrorKind` is `Copy`: its `clone` gives back the same kind.
pub assume_specification[ <std::io::ErrorKind as Clone>::clone ](kind: &std::io::ErrorKind) -> (copy: std::io::ErrorKind)
    ensures
        copy == *kind,
;

/// Why a cache operation failed.
///
/// No variant carries a path or file contents, so an error is safe to log
/// and to return across a process boundary.
#[derive(Clone, Debug, PartialEq, Eq)]
#[non_exhaustive]
pub enum Error {
    /// The root, or a directory or lock file under it, is a symlink, the wrong
    /// kind of file, or owned by another user.
    UnsafeRoot,
    /// A filesystem call failed.
    Io(std::io::ErrorKind),
    /// A file lock could not be taken.
    Lock,
    /// The same key part name was given twice.
    DuplicateKeyPart(String),
    /// A key part name marks a credential, an output format, a destination,
    /// or a request id.
    ForbiddenKeyPart(String),
    /// A value could not be serialized.
    Encode,
}


/// The `Display` text of an I/O error kind, such as `entity not found`.
/// What the text is, std does not promise.
#[verifier::external_body]
fn kind_name(kind: &std::io::ErrorKind) -> String {
    kind.to_string()
}

impl Error {
    /// What went wrong, for a person. No text names a path or a value; an
    /// I/O error is named by kind.
    pub fn describe(&self) -> (text: String)
        ensures
            match self {
                Error::UnsafeRoot => text@ == "cache root is not a private directory"@,
                Error::Io(_) => exists|kind: Seq<char>| text@ == "cache I/O failed: "@ + kind,
                Error::Lock => text@ == "cache lock could not be taken"@,
                Error::DuplicateKeyPart(name) => text@ == "key part `"@ + name@ + "` given twice"@,
                Error::ForbiddenKeyPart(name) => text@ == "key part `"@ + name@
                    + "` names a credential, an output, or a request"@,
                Error::Encode => text@ == "value could not be serialized"@,
            },
    {
        match self {
            Error::UnsafeRoot => "cache root is not a private directory".to_owned(),
            Error::Io(kind) => {
                let kind_text = kind_name(kind);
                let text = concat("cache I/O failed: ", kind_text.as_str());
                assert(text@ == "cache I/O failed: "@ + kind_text@);
                text
            },
            Error::Lock => "cache lock could not be taken".to_owned(),
            Error::DuplicateKeyPart(name) => {
                let mut text = concat("key part `", name.as_str());
                text.append("` given twice");
                text
            },
            Error::ForbiddenKeyPart(name) => {
                let mut text = concat("key part `", name.as_str());
                text.append("` names a credential, an output, or a request");
                text
            },
            Error::Encode => "value could not be serialized".to_owned(),
        }
    }
}

} // verus!
