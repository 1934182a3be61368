//! A feature-flag (toggle) evaluation SDK core.
//!
//! The library keeps a locally cached, versioned definition set (the
//! repository) and evaluates named toggles against a user without any network
//! traffic on the evaluation path.  Synchronization decisions (version-gated
//! replacement, bounded start-up waiting) live in [`sync`]; the transport loop
//! that feeds them is ordinary client code outside this crate.

use vstd::prelude::*;
use vstd::string::StringExecFns;

pub mod cond;
pub mod evaluate;
pub mod hash;
pub mod numbers;
pub mod probe;
pub mod strings;
pub mod sync;
pub mod table;
pub mod user;
pub mod value;

verus! {

/// Errors surfaced by the SDK.
///
/// Evaluation-path errors never cross the SDK boundary as panics: an
/// evaluation failure degrades to a detail whose value is absent plus a
/// descriptive reason.
#[derive(Debug)]
pub enum FPError {
    /// A repository payload did not parse; carries the offending body and the
    /// parser's message.
    JsonError(String, String),
    /// A misconfigured endpoint.
    UrlError(String),
    /// A transport failure while fetching the repository.
    HttpError(String),
    /// A generic evaluation failure (non-detail path).
    EvalError,
    /// An evaluation failure with a diagnostic (detail path only).
    EvalDetailError(String),
    /// An unclassified internal failure.
    InternalError(String),
}

impl FPError {
    /// The diagnostic text of this error, as it appears in evaluation reasons.
    pub fn message(&self) -> (r: String)
        ensures
            r@ == self.spec_message(),
    {
        match self {
            FPError::JsonError(_, e) => String::from_str("invalid json: ").concat(e.as_str()),
            FPError::UrlError(u) => String::from_str("invalid url: ").concat(u.as_str()),
            FPError::HttpError(e) => String::from_str("http error: ").concat(e.as_str()),
            FPError::EvalError => String::from_str("evaluation error"),
            FPError::EvalDetailError(m) => String::from_str("evaluation error: ").concat(
                m.as_str(),
            ),
            FPError::InternalError(m) => String::from_str("internal error: ").concat(m.as_str()),
        }
    }

    /// The diagnostic text of this error.
    pub open spec fn spec_message(&self) -> Seq<char> {
        match self {
            FPError::JsonError(_, e) => "invalid json: "@ + e@,
            FPError::UrlError(u) => "invalid url: "@ + u@,
            FPError::HttpError(e) => "http error: "@ + e@,
            FPError::EvalError => "evaluation error"@,
            FPError::EvalDetailError(m) => "evaluation error: "@ + m@,
            FPError::InternalError(m) => "internal error: "@ + m@,
        }
    }
}

/// What an [`FPError`] denotes.
pub enum ErrorModel {
    /// A repository payload did not parse.
    JsonError(Seq<char>, Seq<char>),
    /// A misconfigured endpoint.
    UrlError(Seq<char>),
    /// A transport failure.
    HttpError(Seq<char>),
    /// A generic evaluation failure.
    EvalError,
    /// An evaluation failure with a diagnostic.
    EvalDetailError(Seq<char>),
    /// An unclassified internal failure.
    InternalError(Seq<char>),
}

impl View for FPError {
    type V = ErrorModel;

    open spec fn view(&self) -> ErrorModel {
        match self {
            FPError::JsonError(body, e) => ErrorModel::JsonError(body@, e@),
            FPError::UrlError(u) => ErrorModel::UrlError(u@),
            FPError::HttpError(e) => ErrorModel::HttpError(e@),
            FPError::EvalError => ErrorModel::EvalError,
            FPError::EvalDetailError(m) => ErrorModel::EvalDetailError(m@),
            FPError::InternalError(m) => ErrorModel::InternalError(m@),
        }
    }
}

/// A failure while resolving a toggle's prerequisites, distinct from a
/// prerequisite that is merely not satisfied.
pub enum PrerequisiteError {
    /// The prerequisite chain exhausted the allowed depth.
    DepthOverflow,
    /// A prerequisite refers to a toggle that is not in the repository.
    NotExist(String),
}

impl PrerequisiteError {
    /// The diagnostic text of this failure, as it appears in evaluation
    /// reasons.
    pub fn message(&self) -> (r: String)
        ensures
            r@ == self.spec_message(),
    {
        match self {
            PrerequisiteError::DepthOverflow => String::from_str("prerequisite depth overflow"),
            PrerequisiteError::NotExist(key) => String::from_str(key.as_str()).concat(" not exist"),
        }
    }

    /// The diagnostic text of this failure.
    pub open spec fn spec_message(&self) -> Seq<char> {
        match self {
            PrerequisiteError::DepthOverflow => "prerequisite depth overflow"@,
            PrerequisiteError::NotExist(key) => key@ + " not exist"@,
        }
    }
}

/// What a [`PrerequisiteError`] denotes.
pub enum PrereqErrorModel {
    /// The prerequisite chain exhausted the allowed depth.
    DepthOverflow,
    /// A prerequisite refers to a toggle that is not in the repository.
    NotExist(Seq<char>),
}

impl View for PrerequisiteError {
    type V = PrereqErrorModel;

    open spec fn view(&self) -> PrereqErrorModel {
        match self {
            PrerequisiteError::DepthOverflow => PrereqErrorModel::DepthOverflow,
            PrerequisiteError::NotExist(key) => PrereqErrorModel::NotExist(key@),
        }
    }
}

/// The typed result handed to callers by the per-type getter facade.
pub struct FPDetail<T> {
    /// The value served, or the caller-supplied default.
    pub value: T,
    /// The index of the rule that served, if one did.
    pub rule_index: Option<usize>,
    /// The index of the variation served, if one was resolved.
    pub variation_index: Option<usize>,
    /// The version of the toggle that was evaluated.
    pub version: Option<u64>,
    /// Why this value was served.
    pub reason: String,
}

/// The SDK key presented to the remote service as an authorization header.
pub struct SdkAuthorization(pub String);

/// Relies on `std::time::SystemTime`: the number of microseconds since the
/// Unix epoch, or zero if the clock reads before the epoch.
#[verifier::external_body]
fn now_micros() -> (r: u128) {
    std::time::SystemTime::now().duration_since(std::time::UNIX_EPOCH).map(
        |d| d.as_micros(),
    ).unwrap_or(0)
}

/// The number of milliseconds since the Unix epoch.
pub fn unix_timestamp() -> u128 {
    now_micros() / 1000
}

/// A fresh rollout key derived from the clock: the decimal rendering of the
/// number of microseconds since the Unix epoch.
pub fn generate_key() -> (r: String)
    ensures
        exists|t: u128| r@ == strings::dec_str(t as nat),
{
    let t = now_micros();
    strings::u128_to_string(t)
}

/// A temporary rollout key for a user without one, derived from the clock.
pub fn temporal_rollout_key() -> (r: String)
    ensures
        exists|t: u128| r@ == strings::dec_str(t as nat),
{
    let t = now_micros();
    strings::u128_to_string(t)
}

} // verus!
