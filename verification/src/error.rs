//! The errors of the blog tool.
use vstd::prelude::*;
use vstd::string::StringExecFns;

verus! {

broadcast use vstd::string::group_string_axioms;

/// What went wrong. The errors of the file system, of git, of TOML and of
/// the template engine are held by their messages.
#[derive(Debug, Clone, PartialEq, Eq)]
pub enum Error {
    ConfigNotFound,
    TemplateNotFound(String),
    Io(String),
    Git2(String),
    Toml(String),
    Tenjin(String),
    Other(String),
}

/// The message that an error displays.
pub open spec fn message_of(e: Error) -> Seq<char> {
    match e {
        Error::ConfigNotFound => "no config found"@,
        Error::TemplateNotFound(s) => "template `"@ + s@ + "` not found"@,
        Error::Io(m) => m@,
        Error::Git2(m) => m@,
        Error::Toml(m) => m@,
        Error::Tenjin(m) => m@,
        Error::Other(m) => m@,
    }
}

impl Error {
    /// The message of the error, as it is displayed.
    pub fn message(&self) -> (m: String)
        ensures
            m@ == message_of(*self),
    {
        match self {
            Error::ConfigNotFound => String::from_str("no config found"),
            Error::TemplateNotFound(s) => {
                let mut m = String::from_str("template `");
                m.append(s.as_str());
                m.append("` not found");
                m
            },
            Error::Io(m) => m.clone(),
            Error::Git2(m) => m.clone(),
            Error::Toml(m) => m.clone(),
            Error::Tenjin(m) => m.clone(),
            Error::Other(m) => m.clone(),
        }
    }
}

} // verus!
