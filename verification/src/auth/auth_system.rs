//! Opening and closing sessions.

use vstd::prelude::*;
use crate::database::model::{first_where, holds_token};
use crate::database::{DatabaseError, ServerDatabase, StoreView};

verus! {

/// The session desk.
pub struct AuthSystem {}

impl AuthSystem {
    /// Opens a session for the holder of `api_token` and returns its token.
    /// Refused if no user holds `api_token`.
    pub fn attempt_new_session(db: &mut ServerDatabase, api_token: &str) -> (result: Result<
        u128,
        DatabaseError,
    >)
        ensures
            match result {
                Ok(session_token) => old(db)@.after_new_session(api_token@, session_token)
                    == Ok::<StoreView, DatabaseError>(final(db)@),
                Err(e) => {
                    &&& e == DatabaseError::InvalidApiToken
                    &&& first_where(old(db)@.users, holds_token(api_token@)) is None
                    &&& final(db)@ == old(db)@
                },
            },
    {
        db.new_session(api_token)
    }

    /// Closes every session.
    pub fn expire_all_sessions(db: &mut ServerDatabase)
        ensures
            final(db)@ == old(db)@.after_session_expiry(),
    {
        db.expire_all_sessions()
    }
}

} // verus!
