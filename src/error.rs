use vstd::prelude::*;
use vstd::string::*;

verus! {

/// Errors that come from checking a value or from encoding it.
#[derive(Debug)]
pub enum CoreError {
    JSONError(serde_json::Error),
    ValidationError(String),
}

/// serde_json's `Error`, carried unopened inside `CoreError::JSONError`.
#[verifier::external_type_specification]
#[verifier::external_body]
pub struct ExJsonError(serde_json::Error);

/// Relies on serde_json's `Display` for `Error` to describe what went wrong.
#[verifier::external_body]
fn json_error_text(err: &serde_json::Error) -> String {
    err.to_string()
}

pub const CORE_JSON_PREFIX: &'static str = "[core error] json error: ";

pub const CORE_VALIDATION_PREFIX: &'static str = "[core error] validation error: ";

impl CoreError {
    /// A validation error that carries `msg`.
    pub fn validation(msg: &str) -> (e: CoreError)
        ensures
            e matches CoreError::ValidationError(m) && m@ == msg@,
    {
        CoreError::ValidationError(String::from_str(msg))
    }

    /// The error as a line of text, prefixed by the kind of error.
    pub fn to_string(&self) -> (r: String)
        ensures
            match self {
                CoreError::ValidationError(m) => r@ == CORE_VALIDATION_PREFIX@ + m@,
                CoreError::JSONError(_) => r@.len() >= CORE_JSON_PREFIX@.len()
                    && r@.subrange(0, CORE_JSON_PREFIX@.len() as int) == CORE_JSON_PREFIX@,
            },
    {
        match self {
            CoreError::JSONError(err) => {
                let mut out = String::from_str(CORE_JSON_PREFIX);
                let text = json_error_text(err);
                out.append(text.as_str());
                proof {
                    assert(out@.subrange(0, CORE_JSON_PREFIX@.len() as int) =~= CORE_JSON_PREFIX@);
                }
                out
            },
            CoreError::ValidationError(msg) => {
                let mut out = String::from_str(CORE_VALIDATION_PREFIX);
                out.append(msg.as_str());
                out
            },
        }
    }
}

/// A value that can be checked against the rules of its kind.
///
/// `fault` is the message of the first rule the value breaks, if any.
pub trait Validator {
    spec fn fault(&self) -> Option<Seq<char>>;

    fn validate(&self) -> (r: Result<(), CoreError>)
        ensures
            match self.fault() {
                None => r is Ok,
                Some(m) => r matches Err(CoreError::ValidationError(e)) && e@ == m,
            },
    ;
}

/// Checks `item` against the rules of its kind.
pub fn validate<T: Validator>(item: &T) -> (r: Result<(), CoreError>)
    ensures
        match item.fault() {
            None => r is Ok,
            Some(m) => r matches Err(CoreError::ValidationError(e)) && e@ == m,
        },
{
    item.validate()
}

/// The kind of a filesystem failure.
#[derive(Debug, Clone, Copy, PartialEq, Eq, Structural)]
pub enum FsErrorKind {
    NotFound,
    AlreadyExists,
    InvalidData,
    Other,
}

/// A filesystem failure: its kind and a description.
#[derive(Debug)]
pub struct FsError {
    pub kind: FsErrorKind,
    pub message: String,
}

impl FsError {
    pub fn new(kind: FsErrorKind, message: &str) -> (e: FsError)
        ensures
            e.kind == kind,
            e.message@ == message@,
    {
        FsError { kind, message: String::from_str(message) }
    }

    pub fn kind(&self) -> (k: FsErrorKind)
        ensures
            k == self.kind,
    {
        self.kind
    }

    pub fn to_string(&self) -> (r: String)
        ensures
            r@ == self.message@,
    {
        self.message.clone()
    }
}

} // verus!
