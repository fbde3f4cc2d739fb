//! The authorization check that every request passes through.

use vstd::prelude::*;
use crate::database::ServerDatabase;
use super::auth_request_state::{AuthError, AuthRequestState, AuthRequestStateView};

verus! {

/// The session token that a `session-token` header spells: the 128-bit number
/// of the UUID that the header holds as a JSON string, if it holds one.
pub uninterp spec fn session_token_of(header: Seq<char>) -> Option<u128>;

/// Reads a session token from a header value: parses the value as JSON into a
/// `uuid::Uuid` with `serde_json::from_str`.
///
/// Believed, not proved: whether the header parses, and to which number, is
/// [`session_token_of`] of the header: it depends on the header alone.
#[verifier::external_body]
pub(crate) fn parse_session_token(header: &str) -> (token: Option<u128>)
    ensures
        token == session_token_of(header@),
{
    serde_json::from_str::<uuid::Uuid>(header).ok().map(|u| u.as_u128())
}

/// The authorization check.
pub struct AuthFairing {}

/// The texts of a run of header values, in order.
pub open spec fn header_texts(headers: Seq<String>) -> Seq<Seq<char>> {
    headers.map_values(|h: String| h@)
}

impl AuthFairing {
    /// What the check finds for a request that carries one API token and one
    /// well-formed session token: the user that they stand for, or that they
    /// stand for none.
    pub open spec fn authorized(store: crate::database::StoreView, api_token: Seq<char>, session_token: u128) -> AuthRequestStateView {
        match store.session_user(api_token, session_token) {
            Some(user) => AuthRequestStateView::Authorized(user),
            None => AuthRequestStateView::Error(AuthError::InvalidSession),
        }
    }

    /// What the check finds for a request with these header values.
    pub open spec fn checked(
        store: crate::database::StoreView,
        api_token_headers: Seq<Seq<char>>,
        session_token_headers: Seq<Seq<char>>,
    ) -> AuthRequestStateView {
        if api_token_headers.len() == 0 && session_token_headers.len() == 0 {
            AuthRequestStateView::Unauthenticated
        } else if api_token_headers.len() != 1 {
            AuthRequestStateView::Error(AuthError::ApiTokenHeaderCount)
        } else if session_token_headers.len() != 1 {
            AuthRequestStateView::Error(AuthError::SessionTokenHeaderCount)
        } else {
            match session_token_of(session_token_headers[0]) {
                None => AuthRequestStateView::Error(AuthError::MalformedSessionToken),
                Some(token) => Self::authorized(store, api_token_headers[0], token),
            }
        }
    }

    /// Whether the request carries any token.
    pub fn authorization_provided(
        api_token_headers: &Vec<String>,
        session_token_headers: &Vec<String>,
    ) -> (provided: bool)
        ensures
            provided == (api_token_headers.len() != 0 || session_token_headers.len() != 0),
    {
        !api_token_headers.is_empty() || !session_token_headers.is_empty()
    }

    /// The API token of a request that carries exactly one.
    pub fn validate_api_token_headers(api_token_headers: &Vec<String>) -> (api_token: Result<
        &str,
        AuthError,
    >)
        ensures
            match api_token {
                Ok(t) => api_token_headers.len() == 1 && t@ == api_token_headers[0]@,
                Err(e) => api_token_headers.len() != 1 && e == AuthError::ApiTokenHeaderCount,
            },
    {
        if api_token_headers.len() != 1 {
            return Err(AuthError::ApiTokenHeaderCount);
        }
        Ok(api_token_headers[0].as_str())
    }

    /// The session token of a request that carries exactly one, well formed.
    pub fn validate_session_token_headers(session_token_headers: &Vec<String>) -> (session_token:
        Result<u128, AuthError>)
        ensures
            session_token == if session_token_headers.len() != 1 {
                Err::<u128, AuthError>(AuthError::SessionTokenHeaderCount)
            } else {
                match session_token_of(session_token_headers[0]@) {
                    Some(t) => Ok(t),
                    None => Err(AuthError::MalformedSessionToken),
                }
            },
    {
        if session_token_headers.len() != 1 {
            return Err(AuthError::SessionTokenHeaderCount);
        }
        match parse_session_token(session_token_headers[0].as_str()) {
            Some(token) => Ok(token),
            None => Err(AuthError::MalformedSessionToken),
        }
    }

    /// The user that the two tokens stand for, if they stand for one.
    pub fn resolve_tokens(db: &ServerDatabase, api_token: &str, session_token: u128) -> (state:
        AuthRequestState)
        ensures
            state@ == Self::authorized(db@, api_token@, session_token),
    {
        match db.validate_session(api_token, session_token) {
            Some(user) => AuthRequestState::Authorized(user),
            None => AuthRequestState::Error(AuthError::InvalidSession),
        }
    }

    /// Checks a request, given the values of its `api-token` and `session-token`
    /// headers. A request is authorized exactly if it carries one of each and
    /// they stand for a user. A request without either is unauthenticated. Any
    /// other request is in error.
    pub fn on_request_inner(
        db: &ServerDatabase,
        api_token_headers: &Vec<String>,
        session_token_headers: &Vec<String>,
    ) -> (state: AuthRequestState)
        ensures
            state@ == Self::checked(
                db@,
                header_texts(api_token_headers@),
                header_texts(session_token_headers@),
            ),
    {
        if !Self::authorization_provided(api_token_headers, session_token_headers) {
            return AuthRequestState::Unauthenticated;
        }
        let api_token = match Self::validate_api_token_headers(api_token_headers) {
            Ok(t) => t,
            Err(e) => {
                return AuthRequestState::Error(e);
            },
        };
        let session_token = match Self::validate_session_token_headers(session_token_headers) {
            Ok(t) => t,
            Err(e) => {
                return AuthRequestState::Error(e);
            },
        };
        Self::resolve_tokens(db, api_token, session_token)
    }
}

} // verus!
