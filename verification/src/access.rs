//! Validation of a remote access key.
//!
//! The exchange with the profile service is driven from outside: each function here takes
//! what the previous step produced and says what to do next, or what the verdict is.

use vstd::prelude::*;
use vstd::string::*;
use crate::text::{blank, is_blank, trim_chars, trimmed};

verus! {

/// The profile that the service returns for a key.
#[derive(Debug, Clone, PartialEq, Eq)]
pub struct UserProfile {
    pub first_name: Option<String>,
    pub last_name: Option<String>,
    pub email: Option<String>,
}

/// The verdict on an access key.
#[derive(Debug, Clone, PartialEq, Eq)]
pub struct AccessKeyValidationResult {
    pub is_valid: bool,
    pub error: Option<String>,
    pub user_data: Option<UserProfile>,
}

/// How the request to the profile service ended.
#[derive(Debug, Clone, PartialEq, Eq)]
pub enum FetchOutcome {
    /// The request could not be sent or no response arrived.
    Unreachable,
    /// The service answered with a status outside the success range; `status` is the
    /// status line as it is shown to the user, such as `404 Not Found`.
    Refused { status: String },
    /// The status was a success but the body could not be read.
    Unreadable,
    /// The status was a success and this is the body.
    Body(String),
}

/// What remains to be done for a validation.
#[derive(Debug, Clone, PartialEq, Eq)]
pub enum Step {
    /// The verdict is known.
    Done(AccessKeyValidationResult),
    /// Request `url` and report the outcome to [`after_fetch`].
    Fetch { url: String },
    /// Decode `text` as a profile and report the outcome to [`after_parse`].
    Parse { text: String },
}

/// A field is unset when it is absent or holds only white space.
pub open spec fn field_unset(f: Option<String>) -> bool {
    match f {
        Some(s) => is_blank(s@),
        None => true,
    }
}

pub open spec fn empty_key_message() -> Seq<char> {
    "Access key cannot be empty"@
}

pub open spec fn invalid_key_message() -> Seq<char> {
    "Invalid access key. Please check your key and try again."@
}

pub open spec fn bad_format_message() -> Seq<char> {
    "Invalid response format from server"@
}

pub open spec fn unreadable_message() -> Seq<char> {
    "Failed to read response from server"@
}

pub open spec fn unreachable_message() -> Seq<char> {
    "Failed to connect to server. Please check your internet connection."@
}

pub open spec fn refused_message(status: Seq<char>) -> Seq<char> {
    "Server error: "@ + status + ". Please check your access key."@
}

/// The address that answers for `key`.
pub open spec fn profile_url(key: Seq<char>) -> Seq<char> {
    "https://asetta.xyz/api/profile?access_key="@ + key
}

/// A body that stands for "no such key": nothing, or an object without members.
pub open spec fn is_vacant_body(text: Seq<char>) -> bool {
    is_blank(text) || trimmed(text) =~= seq!['{', '}']
}

impl UserProfile {
    /// All three fields are unset.
    pub open spec fn is_vacant(&self) -> bool {
        field_unset(self.first_name) && field_unset(self.last_name) && field_unset(self.email)
    }

    /// Whether the profile names nobody: every field absent or blank.
    pub fn is_empty(&self) -> (r: bool)
        ensures
            r == self.is_vacant(),
    {
        option_unset(&self.first_name) && option_unset(&self.last_name) && option_unset(
            &self.email,
        )
    }
}

impl AccessKeyValidationResult {
    /// A rejection that carries exactly `message` and no profile.
    pub open spec fn is_rejection(&self, message: Seq<char>) -> bool {
        &&& !self.is_valid
        &&& self.error matches Some(e) && e@ == message
        &&& self.user_data is None
    }

    /// An acceptance of `profile`, without an error.
    pub open spec fn is_acceptance(&self, profile: UserProfile) -> bool {
        &&& self.is_valid
        &&& self.error is None
        &&& self.user_data == Some(profile)
    }
}

fn option_unset(f: &Option<String>) -> (r: bool)
    ensures
        r == field_unset(*f),
{
    match f {
        Some(s) => blank(s.as_str()),
        None => true,
    }
}

fn reject(message: String) -> (r: AccessKeyValidationResult)
    ensures
        r.is_rejection(message@),
{
    AccessKeyValidationResult { is_valid: false, error: Some(message), user_data: None }
}

/// First step: a blank key is rejected at once, any other is looked up.
pub fn begin_validation(access_key: &str) -> (step: Step)
    ensures
        is_blank(access_key@) ==> (step matches Step::Done(v) && v.is_rejection(
            empty_key_message(),
        )),
        !is_blank(access_key@) ==> (step matches Step::Fetch { url } && url@ == profile_url(
            access_key@,
        )),
{
    if blank(access_key) {
        Step::Done(reject(String::from_str("Access key cannot be empty")))
    } else {
        let mut url = String::from_str("https://asetta.xyz/api/profile?access_key=");
        url.append(access_key);
        Step::Fetch { url }
    }
}

/// Second step: judges how the request ended. Only a body that is neither blank nor an
/// empty object goes on to be decoded.
pub fn after_fetch(outcome: FetchOutcome) -> (step: Step)
    ensures
        match outcome {
            FetchOutcome::Unreachable => step matches Step::Done(v) && v.is_rejection(
                unreachable_message(),
            ),
            FetchOutcome::Refused { status } => step matches Step::Done(v) && v.is_rejection(
                refused_message(status@),
            ),
            FetchOutcome::Unreadable => step matches Step::Done(v) && v.is_rejection(
                unreadable_message(),
            ),
            FetchOutcome::Body(body) => if is_vacant_body(body@) {
                step matches Step::Done(v) && v.is_rejection(invalid_key_message())
            } else {
                step matches Step::Parse { text } && text@ == body@
            },
        },
{
    match outcome {
        FetchOutcome::Unreachable => Step::Done(
            reject(
                String::from_str(
                    "Failed to connect to server. Please check your internet connection.",
                ),
            ),
        ),
        FetchOutcome::Refused { status } => {
            let mut message = String::from_str("Server error: ");
            message.append(status.as_str());
            message.append(". Please check your access key.");
            Step::Done(reject(message))
        },
        FetchOutcome::Unreadable => Step::Done(
            reject(String::from_str("Failed to read response from server")),
        ),
        FetchOutcome::Body(body) => {
            let core = trim_chars(body.as_str());
            let vacant = core.len() == 0 || (core.len() == 2 && core[0] == '{' && core[1] == '}');
            if vacant {
                Step::Done(
                    reject(
                        String::from_str(
                            "Invalid access key. Please check your key and try again.",
                        ),
                    ),
                )
            } else {
                Step::Parse { text: body }
            }
        },
    }
}

/// Last step: judges the decoded body. `None` stands for a body that is no profile.
pub fn after_parse(parsed: Option<UserProfile>) -> (verdict: AccessKeyValidationResult)
    ensures
        match parsed {
            None => verdict.is_rejection(bad_format_message()),
            Some(profile) => if profile.is_vacant() {
                verdict.is_rejection(invalid_key_message())
            } else {
                verdict.is_acceptance(profile)
            },
        },
{
    match parsed {
        None => reject(String::from_str("Invalid response format from server")),
        Some(profile) => {
            if profile.is_empty() {
                reject(
                    String::from_str("Invalid access key. Please check your key and try again."),
                )
            } else {
                AccessKeyValidationResult { is_valid: true, error: None, user_data: Some(profile) }
            }
        },
    }
}

} // verus!
