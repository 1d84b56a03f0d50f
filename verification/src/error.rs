//! The error taxonomy: the failures detected while an annotated
//! declaration is turned into a plan, and the errors a built request
//! can end in at run time.

use vstd::prelude::*;

verus! {

/// A failure detected while processing one annotated declaration.  It
/// is fatal to building that one declaration and does not reach run
/// time.
#[derive(Clone, Copy, Debug, PartialEq, Eq, Structural)]
pub enum BuildError {
    /// The annotation body is empty.
    NoMetadataAssigned,
    /// The leading metadata segment is an assignment to something other
    /// than `url`.
    UrlNotSpecified,
    /// The URL source is neither a literal, nor a reference, nor a
    /// `url =` assignment.
    InvalidUrlExpression,
    /// The annotated callable is not a suspending one.
    NotAsync,
    /// The declaration has no return type.
    MissingReturnValue,
    /// The return type is not of the shape `Result<T, _>`.
    MissingGenericReturn,
    /// A parameter annotation token names no known role.
    UnknownRole,
    /// A member annotation token names no known HTTP method.
    UnknownMethod,
    /// A parameter type is neither plain, nor a reference, nor a fixed
    /// array.
    UnsupportedArgShape,
    /// A substitution parameter has a non-scalar type.
    UnsupportedParamType,
    /// Both a form-role and a body-role argument are present.
    BodyFormConflict,
    /// More than one body-role argument is present.
    MultipleBody,
    /// The form-role arguments mix a compound type with other
    /// arguments, or a single form argument has an unusable type.
    UnsupportedFormCombination,
    /// A `headers=` entry is not a `key: value` pair with both parts
    /// nonempty.
    HeaderFormatError,
    /// A member annotation expected a leading path and found another
    /// assignment first.
    PathOverrideMissing,
}

impl BuildError {
    /// The diagnostic text of the failure.
    pub open spec fn spec_message(self) -> Seq<char> {
        match self {
            BuildError::NoMetadataAssigned => "no metadata assign"@,
            BuildError::UrlNotSpecified => "metadata url not specified"@,
            BuildError::InvalidUrlExpression => "metadata url is invalid"@,
            BuildError::NotAsync => "only support async fn"@,
            BuildError::MissingReturnValue => "function must have a return value"@,
            BuildError::MissingGenericReturn => "return value must be Result"@,
            BuildError::UnknownRole => "unknown arg type"@,
            BuildError::UnknownMethod => "unknown request method marker"@,
            BuildError::UnsupportedArgShape => "function args type must be plain, reference or fixed array"@,
            BuildError::UnsupportedParamType => "unsupported param parameter"@,
            BuildError::BodyFormConflict => "request must have only one of body or form"@,
            BuildError::MultipleBody => "request must have only one body"@,
            BuildError::UnsupportedFormCombination => "form parameters only support scalar types, &str, String or struct"@,
            BuildError::HeaderFormatError => "headers format is incorrect"@,
            BuildError::PathOverrideMissing => "metadata path not specified or must be the first"@,
        }
    }

    pub fn message(&self) -> (r: &str)
        ensures
            r@ == self.spec_message(),
    {
        match *self {
            BuildError::NoMetadataAssigned => "no metadata assign",
            BuildError::UrlNotSpecified => "metadata url not specified",
            BuildError::InvalidUrlExpression => "metadata url is invalid",
            BuildError::NotAsync => "only support async fn",
            BuildError::MissingReturnValue => "function must have a return value",
            BuildError::MissingGenericReturn => "return value must be Result",
            BuildError::UnknownRole => "unknown arg type",
            BuildError::UnknownMethod => "unknown request method marker",
            BuildError::UnsupportedArgShape => "function args type must be plain, reference or fixed array",
            BuildError::UnsupportedParamType => "unsupported param parameter",
            BuildError::BodyFormConflict => "request must have only one of body or form",
            BuildError::MultipleBody => "request must have only one body",
            BuildError::UnsupportedFormCombination => "form parameters only support scalar types, &str, String or struct",
            BuildError::HeaderFormatError => "headers format is incorrect",
            BuildError::PathOverrideMissing => "metadata path not specified or must be the first",
        }
    }
}

/// The kind of a run-time request error; a status failure carries the
/// HTTP status code.
#[derive(Clone, Copy, Debug, PartialEq, Eq, Structural)]
pub enum ErrorKind {
    /// An error occurred while building the http client.
    Build,
    /// An error occurred while creating the http config.
    Config,
    /// An error occurred while encoding the request body.
    Encode,
    /// An error occurred while decoding the response body.
    Decode,
    /// An error occurred while requesting the target url.
    Request,
    /// The http status of the response was not ok.
    Status(u16),
}

/// The errors that may occur when processing a request.
#[derive(Debug)]
pub struct Error {
    pub kind: ErrorKind,
    pub url: Option<String>,
    pub detail: Option<String>,
}

impl Error {
    pub fn new(kind: ErrorKind, detail: Option<String>) -> (r: Error)
        ensures
            r.kind == kind,
            r.detail == detail,
            r.url is None,
    {
        Error { kind, url: None, detail }
    }

    pub fn build(detail: String) -> (r: Error)
        ensures
            r.kind == ErrorKind::Build,
            r.detail == Some(detail),
            r.url is None,
    {
        Error::new(ErrorKind::Build, Some(detail))
    }

    pub fn config(detail: String) -> (r: Error)
        ensures
            r.kind == ErrorKind::Config,
            r.detail == Some(detail),
            r.url is None,
    {
        Error::new(ErrorKind::Config, Some(detail))
    }

    pub fn decode(detail: String) -> (r: Error)
        ensures
            r.kind == ErrorKind::Decode,
            r.detail == Some(detail),
            r.url is None,
    {
        Error::new(ErrorKind::Decode, Some(detail))
    }

    pub fn encode(detail: String) -> (r: Error)
        ensures
            r.kind == ErrorKind::Encode,
            r.detail == Some(detail),
            r.url is None,
    {
        Error::new(ErrorKind::Encode, Some(detail))
    }

    pub fn request(detail: String) -> (r: Error)
        ensures
            r.kind == ErrorKind::Request,
            r.detail == Some(detail),
            r.url is None,
    {
        Error::new(ErrorKind::Request, Some(detail))
    }

    pub fn status(url: String, status: u16) -> (r: Error)
        ensures
            r.kind == ErrorKind::Status(status),
            r.detail is None,
            r.url == Some(url),
    {
        Error::new(ErrorKind::Status(status), None).with_url(url)
    }

    pub fn with_url(self, url: String) -> (r: Error)
        ensures
            r.kind == self.kind,
            r.detail == self.detail,
            r.url == Some(url),
    {
        Error { url: Some(url), ..self }
    }

    pub fn error_kind(&self) -> (r: ErrorKind)
        ensures
            r == self.kind,
    {
        self.kind
    }

    pub fn is_build_error(&self) -> (r: bool)
        ensures
            r == (self.kind is Build),
    {
        matches!(self.kind, ErrorKind::Build)
    }

    pub fn is_config_error(&self) -> (r: bool)
        ensures
            r == (self.kind is Config),
    {
        matches!(self.kind, ErrorKind::Config)
    }

    pub fn is_encode_error(&self) -> (r: bool)
        ensures
            r == (self.kind is Encode),
    {
        matches!(self.kind, ErrorKind::Encode)
    }

    pub fn is_decode_error(&self) -> (r: bool)
        ensures
            r == (self.kind is Decode),
    {
        matches!(self.kind, ErrorKind::Decode)
    }

    pub fn is_request_error(&self) -> (r: bool)
        ensures
            r == (self.kind is Request),
    {
        matches!(self.kind, ErrorKind::Request)
    }

    pub fn is_status_error(&self) -> (r: bool)
        ensures
            r == (self.kind is Status),
    {
        matches!(self.kind, ErrorKind::Status(_))
    }
}

} // verus!
