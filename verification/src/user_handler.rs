//! Signup, login and logout: the decisions behind `/signup`, `/login` and
//! `/logout`.  Each handler states exactly which inputs succeed, what is
//! persisted, what the session becomes, and which flash messages are left
//! for the next page.

use vstd::prelude::*;
use crate::db::Db;
use crate::forms::{
    LoginData, SignupData, msgs_are_errors, signup_error_texts, signup_valid, validate_signup,
};
use crate::outside::{hash_of, hash_ok, hash_password, password_matches, verifies};
use crate::session::{
    Flash, Level, Page, PageOrRedirect, Session, Target, flash_error, flash_extend, flash_info,
    pushed, take_messages,
};

verus! {

/// The credentials name a registered account and the password verifies
/// against its stored hash.
pub open spec fn login_ok(db: Db, d: &LoginData) -> bool {
    exists|i: int|
        0 <= i < db.users@.len() && (#[trigger] db.users@[i]).email@ == d.email@ && verifies(
            d.password@,
            db.users@[i].password@,
        )
}

/// The id of the (unique, under `Db::wf`) account with this e-mail.
pub open spec fn user_id_for_email(db: Db, email: Seq<char>) -> u64 {
    let i = choose|i: int|
        0 <= i < db.users@.len() && (#[trigger] db.users@[i]).email@ == email;
    db.users@[i].id
}

/// `new_db` is `old_db` with exactly one account appended: the one signup
/// owed for `d`, its password stored as the salted hash.
pub open spec fn signup_created(old_db: Db, new_db: Db, d: &SignupData, salt: Seq<char>) -> bool {
    &&& new_db.users@.len() == old_db.users@.len() + 1
    &&& new_db.users@.take(old_db.users@.len() as int) == old_db.users@
    &&& new_db.users@.last().id == old_db.next_user_id
    &&& new_db.users@.last().username@ == d.username@
    &&& new_db.users@.last().email@ == d.email@
    &&& new_db.users@.last().password@ == hash_of(d.password@, salt)
    &&& new_db.users@.last().password@ != d.password@
    &&& verifies(d.password@, new_db.users@.last().password@)
    &&& new_db.events@ == old_db.events@
    &&& new_db.user_events@ == old_db.user_events@
    &&& new_db.next_user_id == old_db.next_user_id + 1
    &&& new_db.next_event_id == old_db.next_event_id
    &&& new_db.next_user_event_id == old_db.next_user_event_id
}

/// Renders the login page, or sends an already-authenticated caller home.
/// Handles `GET /login`.
pub fn login(session: &Session, flash: &mut Flash) -> (r: PageOrRedirect)
    ensures
        session.is_logged_in() ==> (r matches PageOrRedirect::Redirect(t) && t == Target::Home
            && final(flash).msgs@ == old(flash).msgs@),
        !session.is_logged_in() ==> (r matches PageOrRedirect::Page(p) && p.title@ == "Log in"@
            && p.messages@ == old(flash).msgs@ && final(flash).msgs@.len() == 0 && !p.is_logged_in
            && p.username is None && p.events@.len() == 0),
{
    if session.user_id.is_some() {
        return PageOrRedirect::Redirect(Target::Home);
    }
    let messages = take_messages(flash);
    PageOrRedirect::Page(
        Page {
            title: "Log in".to_owned(),
            messages,
            is_logged_in: false,
            username: None,
            events: Vec::new(),
            locations: Vec::new(),
            categories: Vec::new(),
        },
    )
}

/// Renders the signup page, or sends an already-authenticated caller home.
/// Handles `GET /signup`.
pub fn signup(session: &Session, flash: &mut Flash) -> (r: PageOrRedirect)
    ensures
        session.is_logged_in() ==> (r matches PageOrRedirect::Redirect(t) && t == Target::Home
            && final(flash).msgs@ == old(flash).msgs@),
        !session.is_logged_in() ==> (r matches PageOrRedirect::Page(p) && p.title@ == "Sign up"@
            && p.messages@ == old(flash).msgs@ && final(flash).msgs@.len() == 0 && !p.is_logged_in
            && p.username is None && p.events@.len() == 0),
{
    if session.user_id.is_some() {
        return PageOrRedirect::Redirect(Target::Home);
    }
    let messages = take_messages(flash);
    PageOrRedirect::Page(
        Page {
            title: "Sign up".to_owned(),
            messages,
            is_logged_in: false,
            username: None,
            events: Vec::new(),
            locations: Vec::new(),
            categories: Vec::new(),
        },
    )
}

/// Clears the session's authenticated-user marker, whether or not anybody
/// was signed in.  Handles `GET /logout`.
pub fn logout(session: &mut Session, flash: &mut Flash) -> (r: Target)
    ensures
        final(session).user_id is None,
        pushed(final(flash).msgs@, old(flash).msgs@, Level::Info, "You have logged out."@),
        r == Target::Home,
{
    session.user_id = None;
    flash_info(flash, "You have logged out.".to_owned());
    Target::Home
}

/// Authenticates the credentials against the stored accounts: on success
/// the session holds the account's id; on failure nothing changes but the
/// flash, and the two causes keep their distinct messages.  Handles
/// `POST /login`.
pub fn process_login_form(db: &Db, session: &mut Session, flash: &mut Flash, data: &LoginData) -> (r: Target)
    requires
        db.wf(),
    ensures
        login_ok(*db, data) ==> r == Target::Home && final(session).user_id == Some(
            user_id_for_email(*db, data.email@),
        ) && pushed(final(flash).msgs@, old(flash).msgs@, Level::Info, "Login successful!"@),
        !login_ok(*db, data) && db.has_email(data.email@) ==> r == Target::Login && *final(session) == *old(session) && pushed(
            final(flash).msgs@,
            old(flash).msgs@,
            Level::Error,
            "Invalid password."@,
        ),
        !db.has_email(data.email@) ==> r == Target::Login && *final(session) == *old(session)
            && pushed(final(flash).msgs@, old(flash).msgs@, Level::Error, "Not found."@),
{
    match db.find_user_by_email(data.email.as_str()) {
        Some(i) => {
            proof {
                let ci = choose|ci: int|
                    0 <= ci < db.users@.len() && (#[trigger] db.users@[ci]).email@ == data.email@;
                assert(ci == i);
            }
            if password_matches(data.password.as_str(), db.users[i].password.as_str()) {
                session.user_id = Some(db.users[i].id);
                flash_info(flash, "Login successful!".to_owned());
                proof {
                    assert forall|j: int|
                        0 <= j < db.users@.len() && (#[trigger] db.users@[j]).email@
                            == data.email@ implies j == i by {}
                }
                Target::Home
            } else {
                proof {
                    assert forall|j: int|
                        0 <= j < db.users@.len() && (#[trigger] db.users@[j]).email@
                            == data.email@ implies j == i by {}
                }
                flash_error(flash, "Invalid password.".to_owned());
                Target::Login
            }
        },
        None => {
            flash_error(flash, "Not found.".to_owned());
            Target::Login
        },
    }
}

/// Validates the signup form, rules out a second account under a taken
/// e-mail, and otherwise persists the one new account with its salted
/// password hash and signs it in.  A salt the hasher rejects persists
/// nothing.  Handles `POST /signup`.
pub fn process_signup_form(
    db: &mut Db,
    session: &mut Session,
    flash: &mut Flash,
    data: &SignupData,
    salt: &str,
) -> (r: Target)
    requires
        old(db).wf(),
        old(db).next_user_id < u64::MAX,
    ensures
        final(db).wf(),
        !signup_valid(data) ==> *final(db) == *old(db) && *final(session) == *old(session) && r
            == Target::Signup && final(flash).msgs@.take(old(flash).msgs@.len() as int) == old(
            flash,
        ).msgs@ && msgs_are_errors(
            final(flash).msgs@.skip(old(flash).msgs@.len() as int),
            signup_error_texts(data),
        ),
        signup_valid(data) && old(db).has_email(data.email@) ==> *final(db) == *old(db) && *final(session) == *old(session) && r == Target::Signup && pushed(
            final(flash).msgs@,
            old(flash).msgs@,
            Level::Error,
            "Email is already registered."@,
        ),
        signup_valid(data) && !old(db).has_email(data.email@) && hash_ok(
            data.password@,
            salt@,
        ) ==> r == Target::Home && signup_created(*old(db), *final(db), data, salt@)
            && final(session).user_id == Some(old(db).next_user_id) && pushed(
            final(flash).msgs@,
            old(flash).msgs@,
            Level::Info,
            "Hi!"@,
        ),
        signup_valid(data) && !old(db).has_email(data.email@) && !hash_ok(
            data.password@,
            salt@,
        ) ==> r == Target::Signup && *final(db) == *old(db) && *final(session) == *old(session)
            && pushed(
            final(flash).msgs@,
            old(flash).msgs@,
            Level::Error,
            "Could not hash the password."@,
        ),
{
    let errs = validate_signup(data);
    if errs.len() > 0 {
        flash_extend(flash, errs);
        return Target::Signup;
    }
    match db.find_user_by_email(data.email.as_str()) {
        Some(_) => {
            flash_error(flash, "Email is already registered.".to_owned());
            Target::Signup
        },
        None => {
            match hash_password(data.password.as_str(), salt) {
                Some(h) => {
                    let id = db.insert_user(data.username.clone(), data.email.clone(), h);
                    session.user_id = Some(id);
                    flash_info(flash, "Hi!".to_owned());
                    proof {
                        assert(db.users@.take(old(db).users@.len() as int) =~= old(db).users@);
                        assert(db.users@.last().password@.len() != data.password@.len());
                    }
                    Target::Home
                },
                None => {
                    flash_error(flash, "Could not hash the password.".to_owned());
                    Target::Signup
                },
            }
        },
    }
}

/// A freshly created account can log in with the credentials it signed up
/// with: the hash stored by signup verifies against the same password.
pub proof fn lemma_signup_then_login(
    old_db: Db,
    new_db: Db,
    d: &SignupData,
    salt: Seq<char>,
    l: &LoginData,
)
    requires
        signup_created(old_db, new_db, d, salt),
        l.email@ == d.email@,
        l.password@ == d.password@,
    ensures
        login_ok(new_db, l),
{
    let i = new_db.users@.len() - 1;
    assert(new_db.users@[i].email@ == l.email@ && verifies(l.password@, new_db.users@[i].password@));
}

} // verus!
