//! The forms that the control surface accepts.

use vstd::prelude::*;

verus! {

/// A job submission: the source URL and the identifier of the output format.
#[derive(Debug)]
pub struct NewJobForm {
    pub url: String,
    pub format: String,
}

/// A request for a session: the API token of the user.
#[derive(Debug)]
pub struct NewSessionForm {
    pub api_token: String,
}

/// A new server configuration, as JSON text.
#[derive(Debug)]
pub struct NewConfigForm {
    pub value: String,
}

} // verus!
