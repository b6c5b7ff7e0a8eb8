use happening::db::Db;
use happening::forms::{LoginData, NewEventData, SignupData};
use happening::event_handler::{
    all_events, delete_event, mark_event_going, new_event_form, process_new_event_form,
    user_events,
};
use happening::session::{Flash, Level, PageOrRedirect, Session, Target};
use happening::user_handler::{login, logout, process_login_form, process_signup_form, signup};

const SALT: &str = "c29tZXNhbHQ";

fn signup_data(email: &str, username: &str, password: &str) -> SignupData {
    SignupData {
        email: email.to_owned(),
        username: username.to_owned(),
        password: password.to_owned(),
        confirm_password: password.to_owned(),
    }
}

fn login_data(email: &str, password: &str) -> LoginData {
    LoginData { email: email.to_owned(), password: password.to_owned() }
}

fn event_data(title: &str, url: &str, location: &str, date: &str, category: &str) -> NewEventData {
    NewEventData {
        title: title.to_owned(),
        url: url.to_owned(),
        location: location.to_owned(),
        date: date.to_owned(),
        category: category.to_owned(),
    }
}

fn fresh() -> (Db, Session, Flash) {
    (Db::empty(), Session { user_id: None }, Flash::new())
}

#[test]
fn signup_creates_one_user_and_signs_in() {
    let (mut db, mut session, mut flash) = fresh();
    let d = signup_data("alice@example.com", "alice", "password123");
    let r = process_signup_form(&mut db, &mut session, &mut flash, &d, SALT);
    assert_eq!(r, Target::Home);
    assert_eq!(db.users.len(), 1);
    assert_eq!(db.users[0].email, "alice@example.com");
    assert_eq!(db.users[0].username, "alice");
    assert_ne!(db.users[0].password, "password123");
    assert_eq!(session.user_id, Some(db.users[0].id));
    assert_eq!(flash.msgs.len(), 1);
    assert_eq!(flash.msgs[0].text, "Hi!");
    assert!(matches!(flash.msgs[0].level, Level::Info));
}

#[test]
fn signup_duplicate_email_creates_nothing() {
    let (mut db, mut session, mut flash) = fresh();
    let d = signup_data("alice@example.com", "alice", "password123");
    process_signup_form(&mut db, &mut session, &mut flash, &d, SALT);
    let mut session2 = Session { user_id: None };
    let mut flash2 = Flash::new();
    let d2 = signup_data("alice@example.com", "mallory", "hunter22");
    let r = process_signup_form(&mut db, &mut session2, &mut flash2, &d2, SALT);
    assert_eq!(r, Target::Signup);
    assert_eq!(db.users.len(), 1);
    assert_eq!(session2.user_id, None);
    assert_eq!(flash2.msgs.len(), 1);
    assert_eq!(flash2.msgs[0].text, "Email is already registered.");
    assert!(matches!(flash2.msgs[0].level, Level::Error));
}

#[test]
fn signup_email_match_is_case_sensitive() {
    let (mut db, mut session, mut flash) = fresh();
    let d = signup_data("alice@example.com", "alice", "password123");
    process_signup_form(&mut db, &mut session, &mut flash, &d, SALT);
    let mut session2 = Session { user_id: None };
    let mut flash2 = Flash::new();
    let d2 = signup_data("Alice@example.com", "other", "password123");
    let r = process_signup_form(&mut db, &mut session2, &mut flash2, &d2, SALT);
    assert_eq!(r, Target::Home);
    assert_eq!(db.users.len(), 2);
}

#[test]
fn signup_mismatched_passwords_persist_nothing() {
    let (mut db, mut session, mut flash) = fresh();
    let d = SignupData {
        email: "alice@example.com".to_owned(),
        username: "alice".to_owned(),
        password: "password123".to_owned(),
        confirm_password: "password124".to_owned(),
    };
    let r = process_signup_form(&mut db, &mut session, &mut flash, &d, SALT);
    assert_eq!(r, Target::Signup);
    assert_eq!(db.users.len(), 0);
    assert_eq!(session.user_id, None);
    assert_eq!(flash.msgs.len(), 1);
    assert_eq!(flash.msgs[0].text, "Passwords not identical.");
}

#[test]
fn login_correct_and_wrong_credentials() {
    let (mut db, mut session, mut flash) = fresh();
    let d = signup_data("alice@example.com", "alice", "password123");
    process_signup_form(&mut db, &mut session, &mut flash, &d, SALT);
    let uid = db.users[0].id;

    let mut s = Session { user_id: None };
    let mut f = Flash::new();
    let r = process_login_form(&db, &mut s, &mut f, &login_data("alice@example.com", "password123"));
    assert_eq!(r, Target::Home);
    assert_eq!(s.user_id, Some(uid));
    assert_eq!(f.msgs.last().unwrap().text, "Login successful!");

    let mut s2 = Session { user_id: None };
    let mut f2 = Flash::new();
    let r2 = process_login_form(&db, &mut s2, &mut f2, &login_data("alice@example.com", "wrong"));
    assert_eq!(r2, Target::Login);
    assert_eq!(s2.user_id, None);
    assert_eq!(f2.msgs.last().unwrap().text, "Invalid password.");
    assert_eq!(db.users.len(), 1);

    let mut s3 = Session { user_id: None };
    let mut f3 = Flash::new();
    let r3 = process_login_form(&db, &mut s3, &mut f3, &login_data("bob@example.com", "password123"));
    assert_eq!(r3, Target::Login);
    assert_eq!(s3.user_id, None);
    assert_eq!(f3.msgs.last().unwrap().text, "Not found.");
}

#[test]
fn logout_clears_session_even_when_signed_out() {
    let mut s = Session { user_id: Some(9) };
    let mut f = Flash::new();
    assert_eq!(logout(&mut s, &mut f), Target::Home);
    assert_eq!(s.user_id, None);
    assert_eq!(f.msgs[0].text, "You have logged out.");
    let r = logout(&mut s, &mut f);
    assert_eq!(r, Target::Home);
    assert_eq!(s.user_id, None);
}

#[test]
fn login_and_signup_pages_redirect_when_authed() {
    let mut f = Flash::new();
    let authed = Session { user_id: Some(1) };
    assert!(matches!(login(&authed, &mut f), PageOrRedirect::Redirect(Target::Home)));
    assert!(matches!(signup(&authed, &mut f), PageOrRedirect::Redirect(Target::Home)));
    let anon = Session { user_id: None };
    match login(&anon, &mut f) {
        PageOrRedirect::Page(p) => assert_eq!(p.title, "Log in"),
        PageOrRedirect::Redirect(_) => panic!("expected the login page"),
    }
    match signup(&anon, &mut f) {
        PageOrRedirect::Page(p) => assert_eq!(p.title, "Sign up"),
        PageOrRedirect::Redirect(_) => panic!("expected the signup page"),
    }
}

#[test]
fn flash_messages_survive_exactly_one_render() {
    let (db, _, mut flash) = fresh();
    let anon = Session { user_id: None };
    let mut s = Session { user_id: None };
    let mut db = db;
    process_login_form(&db, &mut s, &mut flash, &login_data("nobody@example.com", "x"));
    assert_eq!(flash.msgs.len(), 1);
    let page = all_events(&mut db, &anon, &mut flash);
    assert_eq!(page.messages.len(), 1);
    assert_eq!(page.messages[0].text, "Not found.");
    let page2 = all_events(&mut db, &anon, &mut flash);
    assert_eq!(page2.messages.len(), 0);
}

#[test]
fn event_creation_requires_login_after_validation() {
    let (mut db, _, mut flash) = fresh();
    let anon = Session { user_id: None };
    let bad = event_data("abc", "https://example.com", "Lund", "2025-06-01", "Social");
    // invalid input from an anonymous caller surfaces the validation error
    let r = process_new_event_form(&mut db, &anon, &mut flash, &bad);
    assert_eq!(r, Target::NewEvent);
    assert_eq!(flash.msgs.len(), 1);
    assert_eq!(db.events.len(), 0);
    let good = event_data("Game night", "https://example.com", "Lund", "2025-06-01", "Social");
    let r2 = process_new_event_form(&mut db, &anon, &mut flash, &good);
    assert_eq!(r2, Target::Login);
    assert_eq!(db.events.len(), 0);
}

#[test]
fn new_event_page_lists_choices() {
    let (db, _, mut flash) = fresh();
    let anon = Session { user_id: None };
    assert!(matches!(new_event_form(&db, &anon, &mut flash), PageOrRedirect::Redirect(Target::Login)));
    let authed = Session { user_id: Some(1) };
    match new_event_form(&db, &authed, &mut flash) {
        PageOrRedirect::Page(p) => {
            assert_eq!(p.title, "New event");
            assert_eq!(p.locations.len(), 20);
            assert_eq!(p.categories.len(), 6);
        },
        PageOrRedirect::Redirect(_) => panic!("expected the event form"),
    }
}

#[test]
fn listings_sort_by_date_and_annotate() {
    let (mut db, mut session, mut flash) = fresh();
    let d = signup_data("alice@example.com", "alice", "password123");
    process_signup_form(&mut db, &mut session, &mut flash, &d, SALT);
    let later = event_data("Winter fair", "https://example.com/w", "Umeå", "2025-12-01", "Xmas");
    let earlier = event_data("Spring run", "https://example.com/s", "Lund", "2025-03-01", "Sports");
    let middle = event_data("Game night", "https://example.com/g", "Lund", "2025-06-01", "Social");
    process_new_event_form(&mut db, &session, &mut flash, &later);
    process_new_event_form(&mut db, &session, &mut flash, &earlier);
    process_new_event_form(&mut db, &session, &mut flash, &middle);
    let page = all_events(&db, &session, &mut flash);
    assert_eq!(page.events.len(), 3);
    assert_eq!(page.events[0].title, "Spring run");
    assert_eq!(page.events[1].title, "Game night");
    assert_eq!(page.events[2].title, "Winter fair");
    assert!(page.events.iter().all(|e| e.username == "alice"));
    assert!(page.events.iter().all(|e| e.attendee_count == 0));
    assert!(page.is_logged_in);
    assert_eq!(page.username.as_deref(), Some("alice"));
}

#[test]
fn my_events_lists_only_own_events() {
    let (mut db, mut session, mut flash) = fresh();
    process_signup_form(&mut db, &mut session, &mut flash, &signup_data("a@x.se", "alice", "pw123456"), SALT);
    let alice = session.user_id;
    let mut s2 = Session { user_id: None };
    process_signup_form(&mut db, &mut s2, &mut flash, &signup_data("b@x.se", "bobby", "pw123456"), SALT);
    let a_session = Session { user_id: alice };
    process_new_event_form(&mut db, &a_session, &mut flash, &event_data("Alices own", "https://a.se", "Lund", "2025-05-05", "Social"));
    process_new_event_form(&mut db, &s2, &mut flash, &event_data("Bobbys own", "https://b.se", "Täby", "2025-04-04", "Other"));
    let mut f = Flash::new();
    let page = user_events(&db, &a_session, &mut f);
    assert_eq!(page.events.len(), 1);
    assert_eq!(page.events[0].title, "Alices own");
    let anon = Session { user_id: None };
    let page2 = user_events(&db, &anon, &mut f);
    assert_eq!(page2.events.len(), 0);
}

#[test]
fn toggle_attendance_is_an_involution() {
    let (mut db, mut session, mut flash) = fresh();
    process_signup_form(&mut db, &mut session, &mut flash, &signup_data("a@x.se", "alice", "pw123456"), SALT);
    process_new_event_form(&mut db, &session, &mut flash, &event_data("Game night", "https://a.se", "Lund", "2025-05-05", "Social"));
    let eid = db.events[0].id;
    let c1 = mark_event_going(&mut db, &session, eid);
    assert_eq!(c1, 1);
    let c2 = mark_event_going(&mut db, &session, eid);
    assert_eq!(c2, 0);
    assert_eq!(db.user_events.len(), 0);
}

#[test]
fn anonymous_toggle_only_reads_the_count() {
    let (mut db, mut session, mut flash) = fresh();
    process_signup_form(&mut db, &mut session, &mut flash, &signup_data("a@x.se", "alice", "pw123456"), SALT);
    process_new_event_form(&mut db, &session, &mut flash, &event_data("Game night", "https://a.se", "Lund", "2025-05-05", "Social"));
    let eid = db.events[0].id;
    mark_event_going(&mut db, &session, eid);
    let anon = Session { user_id: None };
    let c = mark_event_going(&mut db, &anon, eid);
    assert_eq!(c, 1);
    assert_eq!(db.user_events.len(), 1);
}

#[test]
fn delete_event_cascades_attendance() {
    let (mut db, mut session, mut flash) = fresh();
    process_signup_form(&mut db, &mut session, &mut flash, &signup_data("a@x.se", "alice", "pw123456"), SALT);
    process_new_event_form(&mut db, &session, &mut flash, &event_data("Game night", "https://a.se", "Lund", "2025-05-05", "Social"));
    process_new_event_form(&mut db, &session, &mut flash, &event_data("Second one", "https://b.se", "Lund", "2025-06-05", "Social"));
    let eid = db.events[0].id;
    mark_event_going(&mut db, &session, eid);
    let second = db.events[1].id;
    mark_event_going(&mut db, &session, second);
    assert_eq!(db.user_events.len(), 2);
    let r = delete_event(&mut db, &session, eid);
    assert_eq!(r, Target::UserEvents);
    assert_eq!(db.events.len(), 1);
    assert!(db.events.iter().all(|e| e.id != eid));
    assert!(db.user_events.iter().all(|ue| ue.event_id != eid));
    assert_eq!(db.user_events.len(), 1);
    let mut f = Flash::new();
    let page = all_events(&db, &session, &mut f);
    assert!(page.events.iter().all(|e| e.id != eid));
}

#[test]
fn delete_event_by_non_owner_changes_nothing() {
    let (mut db, mut session, mut flash) = fresh();
    process_signup_form(&mut db, &mut session, &mut flash, &signup_data("a@x.se", "alice", "pw123456"), SALT);
    process_new_event_form(&mut db, &session, &mut flash, &event_data("Game night", "https://a.se", "Lund", "2025-05-05", "Social"));
    let eid = db.events[0].id;
    mark_event_going(&mut db, &session, eid);
    let mut s2 = Session { user_id: None };
    process_signup_form(&mut db, &mut s2, &mut flash, &signup_data("b@x.se", "bobby", "pw123456"), SALT);
    let r = delete_event(&mut db, &s2, eid);
    assert_eq!(r, Target::UserEvents);
    assert_eq!(db.events.len(), 1);
    assert_eq!(db.user_events.len(), 1);
    let anon = Session { user_id: None };
    assert_eq!(delete_event(&mut db, &anon, eid), Target::Login);
    assert_eq!(db.events.len(), 1);
    assert_eq!(delete_event(&mut db, &s2, 424242), Target::UserEvents);
    assert_eq!(db.events.len(), 1);
}

#[test]
fn full_scenario_signup_create_toggle() {
    let (mut db, mut session, mut flash) = fresh();
    let d = signup_data("alice@example.com", "alice", "password123");
    assert_eq!(process_signup_form(&mut db, &mut session, &mut flash, &d, SALT), Target::Home);
    let mut s = Session { user_id: None };
    let mut f = Flash::new();
    let r = process_login_form(&db, &mut s, &mut f, &login_data("alice@example.com", "password123"));
    assert_eq!(r, Target::Home);
    let e = event_data("Board Games Night", "https://example.com", "Lund", "2025-06-01", "Social");
    assert_eq!(process_new_event_form(&mut db, &s, &mut f, &e), Target::Home);
    let home = all_events(&db, &s, &mut f);
    assert_eq!(home.events.len(), 1);
    assert_eq!(home.events[0].title, "Board Games Night");
    assert_eq!(home.events[0].attendee_count, 0);
    let mine = user_events(&db, &s, &mut f);
    assert_eq!(mine.events.len(), 1);
    assert_eq!(mine.events[0].attendee_count, 0);
    let eid = db.events[0].id;
    assert_eq!(mark_event_going(&mut db, &s, eid), 1);
    assert_eq!(mark_event_going(&mut db, &s, eid), 0);
}

#[test]
fn listing_shows_live_attendee_count() {
    let (mut db, mut session, mut flash) = fresh();
    process_signup_form(&mut db, &mut session, &mut flash, &signup_data("a@x.se", "alice", "pw123456"), SALT);
    process_new_event_form(&mut db, &session, &mut flash, &event_data("Game night", "https://a.se", "Lund", "2025-05-05", "Social"));
    let eid = db.events[0].id;
    mark_event_going(&mut db, &session, eid);
    let mut f = Flash::new();
    let page = all_events(&db, &session, &mut f);
    assert_eq!(page.events[0].attendee_count, 1);
    mark_event_going(&mut db, &session, eid);
    let page2 = all_events(&db, &session, &mut f);
    assert_eq!(page2.events[0].attendee_count, 0);
}

#[test]
fn toggle_against_unknown_event_leaves_orphan_row() {
    let (mut db, mut session, mut flash) = fresh();
    process_signup_form(&mut db, &mut session, &mut flash, &signup_data("a@x.se", "alice", "pw123456"), SALT);
    // no foreign-key check guards the join table, so the row is created
    let c = mark_event_going(&mut db, &session, 999);
    assert_eq!(c, 1);
    assert_eq!(db.user_events.len(), 1);
    assert_eq!(db.user_events[0].event_id, 999);
    assert_eq!(db.events.len(), 0);
}
