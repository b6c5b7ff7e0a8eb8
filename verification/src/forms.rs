//! The three form payloads and their field rules.  Each rule is stated as
//! a spec predicate; the exec validators return the error messages for
//! exactly the rules that fail, in field order.

use vstd::prelude::*;
use vstd::string::StrSliceExecFns;
use crate::outside::{is_email, is_url, is_date, check_email, check_url, check_date};
use crate::session::{Level, Message};
use crate::text::str_eq_str;

verus! {

/// The signup form body.
pub struct SignupData {
    pub email: String,
    pub username: String,
    pub password: String,
    pub confirm_password: String,
}

/// The login form body.
pub struct LoginData {
    pub email: String,
    pub password: String,
}

/// The event-creation form body.
pub struct NewEventData {
    pub title: String,
    pub url: String,
    pub location: String,
    pub date: String,
    pub category: String,
}

/// Membership in the fixed set of city names an event may take place in.
pub open spec fn is_location(s: Seq<char>) -> bool {
    ||| s == "Stockholm"@
    ||| s == "Göteborg"@
    ||| s == "Malmö"@
    ||| s == "Uppsala"@
    ||| s == "Västerås"@
    ||| s == "Örebro"@
    ||| s == "Linköping"@
    ||| s == "Helsingborg"@
    ||| s == "Jönköping"@
    ||| s == "Norrköping"@
    ||| s == "Lund"@
    ||| s == "Umeå"@
    ||| s == "Gävle"@
    ||| s == "Borås"@
    ||| s == "Eskilstuna"@
    ||| s == "Södertälje"@
    ||| s == "Karlstad"@
    ||| s == "Täby"@
    ||| s == "Växjö"@
    ||| s == "Halmstad"@
}

/// Membership in the fixed set of event categories.
pub open spec fn is_category(s: Seq<char>) -> bool {
    ||| s == "Languages"@
    ||| s == "Sports"@
    ||| s == "Social"@
    ||| s == "Arts and theatre"@
    ||| s == "Xmas"@
    ||| s == "Other"@
}

/// Decides membership in the city set.
pub fn check_location(s: &str) -> (r: bool)
    ensures
        r == is_location(s@),
{
    str_eq_str(s, "Stockholm") || str_eq_str(s, "Göteborg") || str_eq_str(s, "Malmö")
        || str_eq_str(s, "Uppsala") || str_eq_str(s, "Västerås") || str_eq_str(s, "Örebro")
        || str_eq_str(s, "Linköping") || str_eq_str(s, "Helsingborg") || str_eq_str(s, "Jönköping")
        || str_eq_str(s, "Norrköping") || str_eq_str(s, "Lund") || str_eq_str(s, "Umeå")
        || str_eq_str(s, "Gävle") || str_eq_str(s, "Borås") || str_eq_str(s, "Eskilstuna")
        || str_eq_str(s, "Södertälje") || str_eq_str(s, "Karlstad") || str_eq_str(s, "Täby")
        || str_eq_str(s, "Växjö") || str_eq_str(s, "Halmstad")
}

/// Decides membership in the category set.
pub fn check_category(s: &str) -> (r: bool)
    ensures
        r == is_category(s@),
{
    str_eq_str(s, "Languages") || str_eq_str(s, "Sports") || str_eq_str(s, "Social")
        || str_eq_str(s, "Arts and theatre") || str_eq_str(s, "Xmas") || str_eq_str(s, "Other")
}

/// All field rules of the signup form.
pub open spec fn signup_valid(d: &SignupData) -> bool {
    &&& is_email(d.email@)
    &&& 4 <= d.username@.len() <= 20
    &&& 4 <= d.password@.len() <= 15
    &&& d.confirm_password@ == d.password@
}

/// All field rules of the event-creation form.
pub open spec fn event_valid(d: &NewEventData) -> bool {
    &&& 4 <= d.title@.len() <= 30
    &&& is_url(d.url@)
    &&& is_location(d.location@)
    &&& is_date(d.date@)
    &&& is_category(d.category@)
}

/// The error messages owed for the signup form, in field order.
pub open spec fn signup_error_texts(d: &SignupData) -> Seq<Seq<char>> {
    (if is_email(d.email@) {
        Seq::<Seq<char>>::empty()
    } else {
        seq!["Email not valid."@]
    }) + (if 4 <= d.username@.len() <= 20 {
        Seq::<Seq<char>>::empty()
    } else {
        seq!["username should be between 4 to 20 characters."@]
    }) + (if 4 <= d.password@.len() <= 15 {
        Seq::<Seq<char>>::empty()
    } else {
        seq!["password should be between 8 to 15 characters."@]
    }) + (if d.confirm_password@ == d.password@ {
        Seq::<Seq<char>>::empty()
    } else {
        seq!["Passwords not identical."@]
    })
}

/// The error messages owed for the event-creation form, in field order.
pub open spec fn event_error_texts(d: &NewEventData) -> Seq<Seq<char>> {
    (if 4 <= d.title@.len() <= 30 {
        Seq::<Seq<char>>::empty()
    } else {
        seq!["event title should be between 4 to 30 characters."@]
    }) + (if is_url(d.url@) {
        Seq::<Seq<char>>::empty()
    } else {
        seq!["URL not valid."@]
    }) + (if is_location(d.location@) {
        Seq::<Seq<char>>::empty()
    } else {
        seq!["invalid_location"@]
    }) + (if is_date(d.date@) {
        Seq::<Seq<char>>::empty()
    } else {
        seq!["invalid_date"@]
    }) + (if is_category(d.category@) {
        Seq::<Seq<char>>::empty()
    } else {
        seq!["invalid_category"@]
    })
}

/// `s` holds error-level messages whose texts are exactly `texts`.
pub open spec fn msgs_are_errors(s: Seq<Message>, texts: Seq<Seq<char>>) -> bool {
    &&& s.len() == texts.len()
    &&& forall|i: int|
        0 <= i < s.len() ==> (#[trigger] s[i]).level is Error && s[i].text@ == texts[i]
}

/// Checks every signup field rule; returns one error message for each rule
/// that fails, in field order, and nothing when all pass.
pub fn validate_signup(d: &SignupData) -> (r: Vec<Message>)
    ensures
        msgs_are_errors(r@, signup_error_texts(d)),
        r@.len() == 0 <==> signup_valid(d),
{
    let mut r: Vec<Message> = Vec::new();
    if !check_email(d.email.as_str()) {
        r.push(Message { level: Level::Error, text: "Email not valid.".to_owned() });
    }
    let un = d.username.as_str().unicode_len();
    if un < 4 || un > 20 {
        r.push(
            Message {
                level: Level::Error,
                text: "username should be between 4 to 20 characters.".to_owned(),
            },
        );
    }
    let pn = d.password.as_str().unicode_len();
    if pn < 4 || pn > 15 {
        r.push(
            Message {
                level: Level::Error,
                text: "password should be between 8 to 15 characters.".to_owned(),
            },
        );
    }
    if !str_eq_str(d.confirm_password.as_str(), d.password.as_str()) {
        r.push(Message { level: Level::Error, text: "Passwords not identical.".to_owned() });
    }
    r
}

/// Checks every event field rule; returns one error message for each rule
/// that fails, in field order, and nothing when all pass.
pub fn validate_new_event(d: &NewEventData) -> (r: Vec<Message>)
    ensures
        msgs_are_errors(r@, event_error_texts(d)),
        r@.len() == 0 <==> event_valid(d),
{
    let mut r: Vec<Message> = Vec::new();
    let tn = d.title.as_str().unicode_len();
    if tn < 4 || tn > 30 {
        r.push(
            Message {
                level: Level::Error,
                text: "event title should be between 4 to 30 characters.".to_owned(),
            },
        );
    }
    if !check_url(d.url.as_str()) {
        r.push(Message { level: Level::Error, text: "URL not valid.".to_owned() });
    }
    if !check_location(d.location.as_str()) {
        r.push(Message { level: Level::Error, text: "invalid_location".to_owned() });
    }
    if !check_date(d.date.as_str()) {
        r.push(Message { level: Level::Error, text: "invalid_date".to_owned() });
    }
    if !check_category(d.category.as_str()) {
        r.push(Message { level: Level::Error, text: "invalid_category".to_owned() });
    }
    r
}

/// `s` is exactly the fixed list of selectable city names, in order.
pub open spec fn are_location_names(s: Seq<String>) -> bool {
    &&& s.len() == 20
    &&& s[0]@ == "Stockholm"@
    &&& s[1]@ == "Göteborg"@
    &&& s[2]@ == "Malmö"@
    &&& s[3]@ == "Uppsala"@
    &&& s[4]@ == "Västerås"@
    &&& s[5]@ == "Örebro"@
    &&& s[6]@ == "Linköping"@
    &&& s[7]@ == "Helsingborg"@
    &&& s[8]@ == "Jönköping"@
    &&& s[9]@ == "Norrköping"@
    &&& s[10]@ == "Lund"@
    &&& s[11]@ == "Umeå"@
    &&& s[12]@ == "Gävle"@
    &&& s[13]@ == "Borås"@
    &&& s[14]@ == "Eskilstuna"@
    &&& s[15]@ == "Södertälje"@
    &&& s[16]@ == "Karlstad"@
    &&& s[17]@ == "Täby"@
    &&& s[18]@ == "Växjö"@
    &&& s[19]@ == "Halmstad"@
}

/// `s` is exactly the fixed list of selectable categories, in order.
pub open spec fn are_category_names(s: Seq<String>) -> bool {
    &&& s.len() == 6
    &&& s[0]@ == "Languages"@
    &&& s[1]@ == "Sports"@
    &&& s[2]@ == "Social"@
    &&& s[3]@ == "Arts and theatre"@
    &&& s[4]@ == "Xmas"@
    &&& s[5]@ == "Other"@
}

/// The full list of selectable city names, for the event form page.
pub fn event_locations() -> (r: Vec<String>)
    ensures
        are_location_names(r@),
        forall|i: int| 0 <= i < r@.len() ==> is_location(#[trigger] r@[i]@),
{
    let mut r: Vec<String> = Vec::new();
    r.push("Stockholm".to_owned());
    r.push("Göteborg".to_owned());
    r.push("Malmö".to_owned());
    r.push("Uppsala".to_owned());
    r.push("Västerås".to_owned());
    r.push("Örebro".to_owned());
    r.push("Linköping".to_owned());
    r.push("Helsingborg".to_owned());
    r.push("Jönköping".to_owned());
    r.push("Norrköping".to_owned());
    r.push("Lund".to_owned());
    r.push("Umeå".to_owned());
    r.push("Gävle".to_owned());
    r.push("Borås".to_owned());
    r.push("Eskilstuna".to_owned());
    r.push("Södertälje".to_owned());
    r.push("Karlstad".to_owned());
    r.push("Täby".to_owned());
    r.push("Växjö".to_owned());
    r.push("Halmstad".to_owned());
    r
}

/// The full list of selectable categories, for the event form page.
pub fn event_categories() -> (r: Vec<String>)
    ensures
        are_category_names(r@),
        forall|i: int| 0 <= i < r@.len() ==> is_category(#[trigger] r@[i]@),
{
    let mut r: Vec<String> = Vec::new();
    r.push("Languages".to_owned());
    r.push("Sports".to_owned());
    r.push("Social".to_owned());
    r.push("Arts and theatre".to_owned());
    r.push("Xmas".to_owned());
    r.push("Other".to_owned());
    r
}

} // verus!
