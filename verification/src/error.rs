//! The errors of the client and the words they are shown in.
use vstd::prelude::*;

use crate::path::{lossy_text, LocalPath};

verus! {

/// What can go wrong. The texts of [`Error::Http`], [`Error::Io`] and [`Error::Json`] are those of
/// the failures underneath.
#[derive(Debug, PartialEq, Eq)]
pub enum Error {
    MissingEnv(&'static str),
    InvalidConfig(String),
    Http(String),
    ConfigDirUnavailable,
    NotLoggedIn,
    Io { path: LocalPath, source: String },
    Json(String),
    Time(String),
    Api(String),
    InvalidRemotePath(String),
    Crypto(String),
}

/// An error as its kind and the texts it carries.
#[verifier::ext_equal]
pub enum ErrorView {
    MissingEnv(Seq<char>),
    InvalidConfig(Seq<char>),
    Http(Seq<char>),
    ConfigDirUnavailable,
    NotLoggedIn,
    Io { path: Seq<u8>, source: Seq<char> },
    Json(Seq<char>),
    Time(Seq<char>),
    Api(Seq<char>),
    InvalidRemotePath(Seq<char>),
    Crypto(Seq<char>),
}

impl View for Error {
    type V = ErrorView;

    open spec fn view(&self) -> ErrorView {
        match *self {
            Error::MissingEnv(name) => ErrorView::MissingEnv(name@),
            Error::InvalidConfig(text) => ErrorView::InvalidConfig(text@),
            Error::Http(text) => ErrorView::Http(text@),
            Error::ConfigDirUnavailable => ErrorView::ConfigDirUnavailable,
            Error::NotLoggedIn => ErrorView::NotLoggedIn,
            Error::Io { path, source } => ErrorView::Io { path: path@, source: source@ },
            Error::Json(text) => ErrorView::Json(text@),
            Error::Time(text) => ErrorView::Time(text@),
            Error::Api(text) => ErrorView::Api(text@),
            Error::InvalidRemotePath(text) => ErrorView::InvalidRemotePath(text@),
            Error::Crypto(text) => ErrorView::Crypto(text@),
        }
    }
}

/// A result as what it holds: the value's view, or the error's.
pub open spec fn outcome<T: View>(result: Result<T, Error>) -> Result<T::V, ErrorView> {
    match result {
        Ok(value) => Ok(value@),
        Err(error) => Err(error@),
    }
}

/// The words that an error is shown in.
pub open spec fn error_message(error: ErrorView) -> Seq<char> {
    match error {
        ErrorView::MissingEnv(name) => "missing environment variable "@ + name,
        ErrorView::InvalidConfig(text) => "invalid configuration: "@ + text,
        ErrorView::Http(text) => "HTTP request failed: "@ + text,
        ErrorView::ConfigDirUnavailable =>
            "configuration directory is unavailable on this system"@,
        ErrorView::NotLoggedIn => "token file does not exist; run `baidupan login` first"@,
        ErrorView::Io { path, source } => "I/O error at "@ + lossy_text(path) + ": "@ + source,
        ErrorView::Json(text) => "failed to parse JSON: "@ + text,
        ErrorView::Time(text) => "system clock error: "@ + text,
        ErrorView::Api(text) => "API error: "@ + text,
        ErrorView::InvalidRemotePath(text) => "invalid remote path: "@ + text,
        ErrorView::Crypto(text) => "cryptography error: "@ + text,
    }
}

/// `a` followed by `b`.
pub fn concat(a: &str, b: &str) -> (result: String)
    ensures
        result@ == a@ + b@,
{
    let mut result = a.to_owned();
    result.append(b);
    result
}

impl Error {
    /// The words that the error is shown in.
    pub fn to_string(&self) -> (result: String)
        ensures
            result@ == error_message(self@),
    {
        match self {
            Error::MissingEnv(name) => concat("missing environment variable ", name),
            Error::InvalidConfig(text) => concat("invalid configuration: ", text.as_str()),
            Error::Http(text) => concat("HTTP request failed: ", text.as_str()),
            Error::ConfigDirUnavailable =>
                "configuration directory is unavailable on this system".to_owned(),
            Error::NotLoggedIn =>
                "token file does not exist; run `baidupan login` first".to_owned(),
            Error::Io { path, source } => {
                let mut result = concat("I/O error at ", path.display().as_str());
                result.append(": ");
                result.append(source.as_str());
                result
            },
            Error::Json(text) => concat("failed to parse JSON: ", text.as_str()),
            Error::Time(text) => concat("system clock error: ", text.as_str()),
            Error::Api(text) => concat("API error: ", text.as_str()),
            Error::InvalidRemotePath(text) => concat("invalid remote path: ", text.as_str()),
            Error::Crypto(text) => concat("cryptography error: ", text.as_str()),
        }
    }
}

/// Says at which path an operation on the file system failed.
pub trait IoContext<T>: Sized {
    /// What the operation gave, or that it failed.
    spec fn reported(&self) -> Result<T, Seq<char>>;

    fn at(self, path: LocalPath) -> (result: Result<T, Error>)
        ensures
            match self.reported() {
                Ok(value) => result == Ok::<T, Error>(value),
                Err(source) => result matches Err(error) && error@ == (ErrorView::Io {
                    path: path@,
                    source,
                }),
            },
    ;
}

impl<T> IoContext<T> for Result<T, String> {
    open spec fn reported(&self) -> Result<T, Seq<char>> {
        match *self {
            Ok(value) => Ok(value),
            Err(text) => Err(text@),
        }
    }

    fn at(self, path: LocalPath) -> Result<T, Error> {
        match self {
            Ok(value) => Ok(value),
            Err(source) => Err(Error::Io { path, source }),
        }
    }
}

} // verus!
