//! What the authorization check found out about a request.

use vstd::prelude::*;
use super::user::{User, UserView};

verus! {

/// Why a request that carried tokens was not authorized.
#[derive(Clone, Copy, Debug, PartialEq, Eq, Structural)]
pub enum AuthError {
    /// The request does not carry exactly one `api-token` header.
    ApiTokenHeaderCount,
    /// The request does not carry exactly one `session-token` header.
    SessionTokenHeaderCount,
    /// The `session-token` header does not hold a UUID.
    MalformedSessionToken,
    /// No session with that token is bound to a holder of that API token.
    InvalidSession,
}

impl AuthError {
    /// The message of this error.
    pub fn message(&self) -> (text: &'static str)
        ensures
            text@ == match self {
                AuthError::ApiTokenHeaderCount => "Expected exactly 1 'api-token' header."@,
                AuthError::SessionTokenHeaderCount => "Expected exactly 1 'session-token' header."@,
                AuthError::MalformedSessionToken => "Expected 'session-token' to hold a UUID."@,
                AuthError::InvalidSession => "Invalid session."@,
            },
    {
        match self {
            AuthError::ApiTokenHeaderCount => "Expected exactly 1 'api-token' header.",
            AuthError::SessionTokenHeaderCount => "Expected exactly 1 'session-token' header.",
            AuthError::MalformedSessionToken => "Expected 'session-token' to hold a UUID.",
            AuthError::InvalidSession => "Invalid session.",
        }
    }
}

/// What the authorization check found out about a request.
#[derive(Debug)]
pub enum AuthRequestState {
    /// The request carries no token at all.
    Unauthenticated,
    /// The request carries tokens, but they do not authorize it.
    Error(AuthError),
    /// The request acts for this user.
    Authorized(User),
}

/// The mathematical content of an [`AuthRequestState`].
pub ghost enum AuthRequestStateView {
    Unauthenticated,
    Error(AuthError),
    Authorized(UserView),
}

impl View for AuthRequestState {
    type V = AuthRequestStateView;

    open spec fn view(&self) -> AuthRequestStateView {
        match self {
            AuthRequestState::Unauthenticated => AuthRequestStateView::Unauthenticated,
            AuthRequestState::Error(e) => AuthRequestStateView::Error(*e),
            AuthRequestState::Authorized(u) => AuthRequestStateView::Authorized(u@),
        }
    }
}

/// What becomes of a request at a route that needs a user.
#[derive(Clone, Copy, Debug, PartialEq, Eq, Structural)]
pub enum RequestOutcome {
    /// The route is served.
    Success,
    /// The route does not match: the request is unauthenticated.
    Forward,
    /// The request is refused with status 401.
    Unauthorized,
}

impl AuthRequestState {
    /// What becomes of a request in this state at a route that needs a user.
    pub fn from_request(&self) -> (outcome: RequestOutcome)
        ensures
            outcome == match self@ {
                AuthRequestStateView::Unauthenticated => RequestOutcome::Forward,
                AuthRequestStateView::Authorized(_) => RequestOutcome::Success,
                AuthRequestStateView::Error(_) => RequestOutcome::Unauthorized,
            },
    {
        match self {
            AuthRequestState::Unauthenticated => RequestOutcome::Forward,
            AuthRequestState::Authorized(_) => RequestOutcome::Success,
            AuthRequestState::Error(_) => RequestOutcome::Unauthorized,
        }
    }
}

} // verus!
