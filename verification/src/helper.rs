//! Resolving the signed-in user's name for page rendering.

use vstd::prelude::*;
use crate::db::Db;
use crate::session::Session;

verus! {

/// `r` is the username owed for this session: nothing when nobody is
/// signed in or the id matches no account, else that account's name.
pub open spec fn username_matches(db: Db, session: Session, r: Option<String>) -> bool {
    match session.user_id {
        None => r is None,
        Some(uid) => match r {
            Some(name) => exists|i: int|
                0 <= i < db.users@.len() && (#[trigger] db.users@[i]).id == uid
                    && db.users@[i].username@ == name@,
            None => forall|i: int|
                0 <= i < db.users@.len() ==> (#[trigger] db.users@[i]).id != uid,
        },
    }
}

/// The username behind the session's user id, if both exist.
pub fn get_username_from_session(session: &Session, db: &Db) -> (r: Option<String>)
    ensures
        username_matches(*db, *session, r),
{
    match session.user_id {
        None => None,
        Some(uid) => match db.find_user_by_id(uid) {
            Some(i) => Some(db.users[i].username.clone()),
            None => None,
        },
    }
}

} // verus!
