use happening::forms::{
    NewEventData, SignupData, check_category, check_location, event_categories, event_locations,
    validate_new_event, validate_signup,
};
use happening::session::Level;

fn signup_data(email: &str, username: &str, password: &str, confirm: &str) -> SignupData {
    SignupData {
        email: email.to_owned(),
        username: username.to_owned(),
        password: password.to_owned(),
        confirm_password: confirm.to_owned(),
    }
}

fn event_data(title: &str, url: &str, location: &str, date: &str, category: &str) -> NewEventData {
    NewEventData {
        title: title.to_owned(),
        url: url.to_owned(),
        location: location.to_owned(),
        date: date.to_owned(),
        category: category.to_owned(),
    }
}

#[test]
fn signup_all_fields_valid() {
    let d = signup_data("alice@example.com", "alice", "password123", "password123");
    assert!(validate_signup(&d).is_empty());
}

#[test]
fn signup_bad_email_reported() {
    let d = signup_data("not-an-email", "alice", "password123", "password123");
    let errs = validate_signup(&d);
    assert_eq!(errs.len(), 1);
    assert_eq!(errs[0].text, "Email not valid.");
    assert!(matches!(errs[0].level, Level::Error));
}

#[test]
fn signup_short_username_reported() {
    let d = signup_data("alice@example.com", "abc", "password123", "password123");
    let errs = validate_signup(&d);
    assert_eq!(errs.len(), 1);
    assert_eq!(errs[0].text, "username should be between 4 to 20 characters.");
}

#[test]
fn signup_password_length_bounds() {
    // the enforced bound is 4..=15 even though the message says 8 to 15
    let ok = signup_data("a@b.se", "alice", "abcd", "abcd");
    assert!(validate_signup(&ok).is_empty());
    let short = signup_data("a@b.se", "alice", "abc", "abc");
    let errs = validate_signup(&short);
    assert_eq!(errs.len(), 1);
    assert_eq!(errs[0].text, "password should be between 8 to 15 characters.");
    let long = signup_data("a@b.se", "alice", "abcdefghijklmnop", "abcdefghijklmnop");
    assert_eq!(validate_signup(&long).len(), 1);
}

#[test]
fn signup_mismatched_passwords_reported() {
    let d = signup_data("alice@example.com", "alice", "password123", "password124");
    let errs = validate_signup(&d);
    assert_eq!(errs.len(), 1);
    assert_eq!(errs[0].text, "Passwords not identical.");
}

#[test]
fn signup_errors_aggregate_in_field_order() {
    let d = signup_data("bad", "abc", "x", "y");
    let errs = validate_signup(&d);
    assert_eq!(errs.len(), 4);
    assert_eq!(errs[0].text, "Email not valid.");
    assert_eq!(errs[1].text, "username should be between 4 to 20 characters.");
    assert_eq!(errs[2].text, "password should be between 8 to 15 characters.");
    assert_eq!(errs[3].text, "Passwords not identical.");
}

#[test]
fn event_all_fields_valid() {
    let d = event_data("Board Games Night", "https://example.com", "Lund", "2025-06-01", "Social");
    assert!(validate_new_event(&d).is_empty());
}

#[test]
fn event_title_length_checked() {
    let d = event_data("abc", "https://example.com", "Lund", "2025-06-01", "Social");
    let errs = validate_new_event(&d);
    assert_eq!(errs.len(), 1);
    assert_eq!(errs[0].text, "event title should be between 4 to 30 characters.");
}

#[test]
fn event_bad_url_reported() {
    let d = event_data("Game night", "not a url", "Lund", "2025-06-01", "Social");
    let errs = validate_new_event(&d);
    assert_eq!(errs.len(), 1);
    assert_eq!(errs[0].text, "URL not valid.");
}

#[test]
fn event_unknown_location_reported() {
    let d = event_data("Game night", "https://example.com", "Paris", "2025-06-01", "Social");
    let errs = validate_new_event(&d);
    assert_eq!(errs.len(), 1);
    assert_eq!(errs[0].text, "invalid_location");
}

#[test]
fn event_bad_date_reported() {
    // a shape that only a real calendar parse rejects
    let d = event_data("Game night", "https://example.com", "Lund", "2025-02-30", "Social");
    let errs = validate_new_event(&d);
    assert_eq!(errs.len(), 1);
    assert_eq!(errs[0].text, "invalid_date");
    let e = event_data("Game night", "https://example.com", "Lund", "01-06-2025", "Social");
    assert_eq!(validate_new_event(&e).len(), 1);
}

#[test]
fn event_unknown_category_reported() {
    let d = event_data("Game night", "https://example.com", "Lund", "2025-06-01", "Juggling");
    let errs = validate_new_event(&d);
    assert_eq!(errs.len(), 1);
    assert_eq!(errs[0].text, "invalid_category");
}

#[test]
fn location_and_category_sets() {
    assert!(check_location("Stockholm"));
    assert!(check_location("Göteborg"));
    assert!(!check_location("Berlin"));
    assert!(check_category("Arts and theatre"));
    assert!(!check_category("arts and theatre"));
    assert_eq!(event_locations().len(), 20);
    assert_eq!(event_categories().len(), 6);
    assert_eq!(event_locations()[10], "Lund");
    assert_eq!(event_categories()[2], "Social");
}
