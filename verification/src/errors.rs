use vstd::prelude::*;
use vstd::string::*;

verus! {

/// A fatal condition met while planning, rendering or synchronizing.
/// Every variant carries the name, path or engine message that identifies
/// the offender; none of them is recovered from.
#[derive(Debug, Clone, PartialEq, Eq)]
pub enum Error {
    /// A file entry names a repository that the configuration does not define.
    NoSuchRepo(String),
    /// Two file entries resolve to the same output path.
    Conflict(String),
    /// The template engine refused the template set or a render call.
    Template(String),
    /// A variable value could not be handed to the template engine.
    Context(String),
    /// The fork regex pattern does not compile.
    BadPattern(String),
    /// A path operation needed a parent directory the path does not have.
    NoParent(String),
    /// A path operation needed a file name the path does not have.
    NoFileName(String),
}

impl Error {
    /// The text of the diagnostic that the binary prints when aborting.
    pub open spec fn message_spec(&self) -> Seq<char> {
        match self {
            Error::NoSuchRepo(n) => "no such repo: "@ + n@,
            Error::Conflict(p) => "multiple attempts to write to "@ + p@,
            Error::Template(m) => m@,
            Error::Context(m) => "serializing variables: "@ + m@,
            Error::BadPattern(p) => "invalid fork regex: "@ + p@,
            Error::NoParent(p) => "path "@ + p@ + " has no parent"@,
            Error::NoFileName(p) => "path "@ + p@ + " has no filename"@,
        }
    }

    /// Human-readable description of the failure.
    pub fn message(&self) -> (r: String)
        ensures
            r@ == self.message_spec(),
    {
        match self {
            Error::NoSuchRepo(n) => {
                let mut s = String::from_str("no such repo: ");
                s.append(n.as_str());
                s
            },
            Error::Conflict(p) => {
                let mut s = String::from_str("multiple attempts to write to ");
                s.append(p.as_str());
                s
            },
            Error::Template(m) => m.clone(),
            Error::Context(m) => {
                let mut s = String::from_str("serializing variables: ");
                s.append(m.as_str());
                s
            },
            Error::BadPattern(p) => {
                let mut s = String::from_str("invalid fork regex: ");
                s.append(p.as_str());
                s
            },
            Error::NoParent(p) => {
                let mut s = String::from_str("path ");
                s.append(p.as_str());
                s.append(" has no parent");
                s
            },
            Error::NoFileName(p) => {
                let mut s = String::from_str("path ");
                s.append(p.as_str());
                s.append(" has no filename");
                s
            },
        }
    }
}

} // verus!
