//! The event pages and actions: the date-ordered listings behind `/` and
//! `/user_events`, event creation, owner-only deletion with its cascade,
//! and the attendance toggle.

use vstd::prelude::*;
use crate::db::{
    Db, Event, EventSummary, going_count, has_attendance, spec_toggle, without_event,
    lemma_toggle_count, lemma_without_event_distinct,
};
use crate::forms::{
    NewEventData, are_category_names, are_location_names, event_categories, event_error_texts,
    event_locations, event_valid, msgs_are_errors, validate_new_event,
};
use crate::helper::{get_username_from_session, username_matches};
use crate::session::{
    Flash, Page, PageOrRedirect, Session, Target, flash_extend, take_messages,
};
use crate::text::lex_le;

verus! {

/// The caller's own events, in the order they stand in the table.
pub open spec fn events_of(s: Seq<Event>, uid: u64) -> Seq<Event>
    decreases s.len(),
{
    if s.len() == 0 {
        s
    } else {
        let rest = events_of(s.drop_last(), uid);
        if s.last().user_id == uid {
            rest.push(s.last())
        } else {
            rest
        }
    }
}

/// `name` is what a listing shows for the owner `uid`: the owner's
/// username, or "unknown" for an id no account has.
pub open spec fn owner_name_matches(db: Db, uid: u64, name: String) -> bool {
    if exists|i: int| 0 <= i < db.users@.len() && (#[trigger] db.users@[i]).id == uid {
        exists|i: int|
            0 <= i < db.users@.len() && (#[trigger] db.users@[i]).id == uid && name@
                == db.users@[i].username@
    } else {
        name@ == "unknown"@
    }
}

/// `s` is the listing row owed for the event `e`: the same fields, the
/// live attendee count, and (on the all-events page) the owner's name.
pub open spec fn summary_matches(db: Db, e: Event, s: EventSummary, with_username: bool) -> bool {
    &&& s.id == e.id
    &&& s.title@ == e.title@
    &&& s.url@ == e.url@
    &&& s.location@ == e.location@
    &&& s.date@ == e.date@
    &&& s.category@ == e.category@
    &&& s.attendee_count == going_count(db.user_events@, e.id)
    &&& with_username ==> owner_name_matches(db, e.user_id, s.username)
}

/// `new_db` is `old_db` with exactly the one event creation owed for `d`,
/// placed at its spot in date order and owned by `uid`.
pub open spec fn event_created(old_db: Db, new_db: Db, d: &NewEventData, uid: u64) -> bool {
    &&& exists|k: int|
        0 <= k <= old_db.events@.len() && new_db.events@ == old_db.events@.insert(
            k,
            (Event {
                id: old_db.next_event_id,
                title: d.title,
                url: d.url,
                location: d.location,
                date: d.date,
                category: d.category,
                user_id: uid,
            }),
        )
    &&& new_db.users@ == old_db.users@
    &&& new_db.user_events@ == old_db.user_events@
    &&& new_db.next_event_id == old_db.next_event_id + 1
    &&& new_db.next_user_id == old_db.next_user_id
    &&& new_db.next_user_event_id == old_db.next_user_event_id
}

/// Some event has this id and this owner.
pub open spec fn has_event_owned(db: Db, event_id: u64, uid: u64) -> bool {
    exists|i: int|
        0 <= i < db.events@.len() && (#[trigger] db.events@[i]).id == event_id
            && db.events@[i].user_id == uid
}

/// `new_db` is `old_db` with the one event of id `event_id` gone, every
/// attendance row that referenced it gone with it, and nothing of either
/// left behind.
pub open spec fn event_deleted(old_db: Db, new_db: Db, event_id: u64) -> bool {
    &&& exists|i: int|
        0 <= i < old_db.events@.len() && (#[trigger] old_db.events@[i]).id == event_id
            && new_db.events@ == old_db.events@.remove(i)
    &&& forall|j: int|
        0 <= j < new_db.events@.len() ==> (#[trigger] new_db.events@[j]).id != event_id
    &&& new_db.user_events@ == without_event(old_db.user_events@, event_id)
    &&& forall|j: int|
        0 <= j < new_db.user_events@.len() ==> (#[trigger] new_db.user_events@[j]).event_id
            != event_id
    &&& new_db.users@ == old_db.users@
    &&& new_db.next_user_id == old_db.next_user_id
    &&& new_db.next_event_id == old_db.next_event_id
    &&& new_db.next_user_event_id == old_db.next_user_event_id
}

/// Every row of the caller's listing belongs to the caller, and none of
/// the caller's events is left out of it.
pub proof fn lemma_events_of_own(s: Seq<Event>, uid: u64)
    ensures
        forall|i: int|
            0 <= i < events_of(s, uid).len() ==> (#[trigger] events_of(s, uid)[i]).user_id == uid,
        forall|x: Event| #[trigger] events_of(s, uid).contains(x) ==> s.contains(x),
        forall|i: int|
            0 <= i < s.len() && (#[trigger] s[i]).user_id == uid ==> events_of(s, uid).contains(
                s[i],
            ),
    decreases s.len(),
{
    if s.len() > 0 {
        let pre = s.drop_last();
        lemma_events_of_own(pre, uid);
        let t = events_of(s, uid);
        let tp = events_of(pre, uid);
        assert forall|x: Event| #[trigger] t.contains(x) implies s.contains(x) by {
            let j = choose|j: int| 0 <= j < t.len() && t[j] == x;
            if s.last().user_id == uid && j == t.len() - 1 {
                assert(s[s.len() - 1] == x);
            } else {
                assert(tp[j] == x);
                assert(tp.contains(x));
                let k = choose|k: int| 0 <= k < pre.len() && pre[k] == x;
                assert(s[k] == x);
            }
        }
        assert forall|i: int| 0 <= i < s.len() && (#[trigger] s[i]).user_id == uid implies
            t.contains(s[i]) by {
            if i == s.len() - 1 {
                assert(t[t.len() - 1] == s[i]);
            } else {
                assert(pre[i] == s[i]);
                assert(tp.contains(pre[i]));
                let k = choose|k: int| 0 <= k < tp.len() && tp[k] == s[i];
                assert(t[k] == s[i]);
            }
        }
    }
}

/// A caller's listing inherits the table's ascending date order.
pub proof fn lemma_events_of_sorted(s: Seq<Event>, uid: u64)
    requires
        forall|i: int, j: int|
            0 <= i < j < s.len() ==> lex_le((#[trigger] s[i]).date@, (#[trigger] s[j]).date@),
    ensures
        forall|i: int, j: int|
            0 <= i < j < events_of(s, uid).len() ==> lex_le(
                (#[trigger] events_of(s, uid)[i]).date@,
                (#[trigger] events_of(s, uid)[j]).date@,
            ),
    decreases s.len(),
{
    if s.len() > 0 {
        let pre = s.drop_last();
        assert forall|i: int, j: int| 0 <= i < j < pre.len() implies lex_le(
            (#[trigger] pre[i]).date@,
            (#[trigger] pre[j]).date@,
        ) by {
            assert(pre[i] == s[i]);
            assert(pre[j] == s[j]);
        }
        lemma_events_of_sorted(pre, uid);
        lemma_events_of_own(pre, uid);
        let t = events_of(s, uid);
        let tp = events_of(pre, uid);
        if s.last().user_id == uid {
            assert forall|i: int, j: int| 0 <= i < j < t.len() implies lex_le(
                (#[trigger] t[i]).date@,
                (#[trigger] t[j]).date@,
            ) by {
                if j == t.len() - 1 {
                    assert(t[i] == tp[i]);
                    assert(tp.contains(tp[i]));
                    assert(pre.contains(tp[i]));
                    let k = choose|k: int| 0 <= k < pre.len() && pre[k] == tp[i];
                    assert(s[k] == tp[i]);
                    assert(lex_le(s[k].date@, s[s.len() - 1].date@));
                } else {
                    assert(t[i] == tp[i]);
                    assert(t[j] == tp[j]);
                }
            }
        }
    }
}

/// The home page: every event in ascending date order, each with its
/// creator's name and attendee count.  Handles `GET /`.
pub fn all_events(db: &Db, session: &Session, flash: &mut Flash) -> (r: Page)
    requires
        db.wf(),
    ensures
        r.title@ == "Happening nu"@,
        r.messages@ == old(flash).msgs@,
        final(flash).msgs@.len() == 0,
        r.is_logged_in == session.is_logged_in(),
        username_matches(*db, *session, r.username),
        r.events@.len() == db.events@.len(),
        forall|i: int|
            0 <= i < r.events@.len() ==> summary_matches(
                *db,
                db.events@[i],
                #[trigger] r.events@[i],
                true,
            ),
        forall|i: int, j: int|
            0 <= i < j < r.events@.len() ==> lex_le(
                (#[trigger] r.events@[i]).date@,
                (#[trigger] r.events@[j]).date@,
            ),
{
    let messages = take_messages(flash);
    let is_logged_in = session.user_id.is_some();
    let username = get_username_from_session(session, db);
    let n = db.events.len();
    let mut out: Vec<EventSummary> = Vec::new();
    let mut i: usize = 0;
    while i < n
        invariant
            i <= n,
            n == db.events@.len(),
            db.wf(),
            out@.len() == i,
            forall|j: int|
                0 <= j < i ==> summary_matches(*db, db.events@[j], #[trigger] out@[j], true),
        decreases n - i,
    {
        let count = db.count_going(db.events[i].id);
        let owner = match db.find_user_by_id(db.events[i].user_id) {
            Some(k) => db.users[k].username.clone(),
            None => "unknown".to_owned(),
        };
        let e = &db.events[i];
        out.push(
            EventSummary {
                id: e.id,
                title: e.title.clone(),
                url: e.url.clone(),
                location: e.location.clone(),
                date: e.date.clone(),
                category: e.category.clone(),
                attendee_count: count,
                username: owner,
            },
        );
        i = i + 1;
    }
    Page {
        title: "Happening nu".to_owned(),
        messages,
        is_logged_in,
        username,
        events: out,
        locations: Vec::new(),
        categories: Vec::new(),
    }
}

/// The caller's own events in ascending date order; an anonymous caller
/// gets an empty list rather than a redirect.  Handles `GET /user_events`.
pub fn user_events(db: &Db, session: &Session, flash: &mut Flash) -> (r: Page)
    requires
        db.wf(),
    ensures
        r.title@ == "Happening nu"@,
        r.messages@ == old(flash).msgs@,
        final(flash).msgs@.len() == 0,
        r.is_logged_in == session.is_logged_in(),
        username_matches(*db, *session, r.username),
        match session.user_id {
            None => r.events@.len() == 0,
            Some(uid) => {
                &&& r.events@.len() == events_of(db.events@, uid).len()
                &&& forall|i: int|
                    0 <= i < r.events@.len() ==> summary_matches(
                        *db,
                        events_of(db.events@, uid)[i],
                        #[trigger] r.events@[i],
                        false,
                    )
            },
        },
{
    let messages = take_messages(flash);
    let is_logged_in = session.user_id.is_some();
    let username = get_username_from_session(session, db);
    let mut out: Vec<EventSummary> = Vec::new();
    match session.user_id {
        None => {},
        Some(uid) => {
            let n = db.events.len();
            let mut i: usize = 0;
            proof {
                assert(db.events@.take(0) =~= Seq::<Event>::empty());
            }
            while i < n
                invariant
                    i <= n,
                    n == db.events@.len(),
                    db.wf(),
                    out@.len() == events_of(db.events@.take(i as int), uid).len(),
                    forall|j: int|
                        0 <= j < out@.len() ==> summary_matches(
                            *db,
                            events_of(db.events@.take(i as int), uid)[j],
                            #[trigger] out@[j],
                            false,
                        ),
                decreases n - i,
            {
                proof {
                    assert(db.events@.take(i + 1).drop_last() =~= db.events@.take(i as int));
                    assert(db.events@.take(i + 1).last() == db.events@[i as int]);
                }
                if db.events[i].user_id == uid {
                    let count = db.count_going(db.events[i].id);
                    let e = &db.events[i];
                    out.push(
                        EventSummary {
                            id: e.id,
                            title: e.title.clone(),
                            url: e.url.clone(),
                            location: e.location.clone(),
                            date: e.date.clone(),
                            category: e.category.clone(),
                            attendee_count: count,
                            username: "".to_owned(),
                        },
                    );
                }
                i = i + 1;
            }
            proof {
                assert(db.events@.take(n as int) =~= db.events@);
            }
        },
    }
    Page {
        title: "Happening nu".to_owned(),
        messages,
        is_logged_in,
        username,
        events: out,
        locations: Vec::new(),
        categories: Vec::new(),
    }
}

/// The event-creation page with the selectable cities and categories; an
/// anonymous caller is sent to the login page.  Handles `GET /new_event`.
pub fn new_event_form(db: &Db, session: &Session, flash: &mut Flash) -> (r: PageOrRedirect)
    requires
        db.wf(),
    ensures
        !session.is_logged_in() ==> (r matches PageOrRedirect::Redirect(t) && t == Target::Login
            && final(flash).msgs@ == old(flash).msgs@),
        session.is_logged_in() ==> (r matches PageOrRedirect::Page(p) && p.title@ == "New event"@
            && p.messages@ == old(flash).msgs@ && final(flash).msgs@.len() == 0 && p.is_logged_in
            && username_matches(*db, *session, p.username) && are_location_names(p.locations@)
            && are_category_names(p.categories@) && p.events@.len() == 0),
{
    if session.user_id.is_none() {
        return PageOrRedirect::Redirect(Target::Login);
    }
    let messages = take_messages(flash);
    let username = get_username_from_session(session, db);
    PageOrRedirect::Page(
        Page {
            title: "New event".to_owned(),
            messages,
            is_logged_in: true,
            username,
            events: Vec::new(),
            locations: event_locations(),
            categories: event_categories(),
        },
    )
}

/// Validates the event form and, for an authenticated caller, persists
/// the one new event; validation runs first, so an anonymous caller with
/// bad input sees the validation errors, not the login redirect.  Handles
/// `POST /new_event`.
pub fn process_new_event_form(
    db: &mut Db,
    session: &Session,
    flash: &mut Flash,
    data: &NewEventData,
) -> (r: Target)
    requires
        old(db).wf(),
        old(db).next_event_id < u64::MAX,
    ensures
        final(db).wf(),
        !event_valid(data) ==> *final(db) == *old(db) && r == Target::NewEvent && final(
            flash
        ).msgs@.take(old(flash).msgs@.len() as int) == old(flash).msgs@ && msgs_are_errors(
            final(flash).msgs@.skip(old(flash).msgs@.len() as int),
            event_error_texts(data),
        ),
        event_valid(data) ==> final(flash).msgs@ == old(flash).msgs@ && match session.user_id {
            None => *final(db) == *old(db) && r == Target::Login,
            Some(uid) => r == Target::Home && event_created(*old(db), *final(db), data, uid),
        },
{
    let errs = validate_new_event(data);
    if errs.len() > 0 {
        flash_extend(flash, errs);
        return Target::NewEvent;
    }
    match session.user_id {
        None => Target::Login,
        Some(uid) => {
            db.insert_event(
                data.title.clone(),
                data.url.clone(),
                data.location.clone(),
                data.date.clone(),
                data.category.clone(),
                uid,
            );
            Target::Home
        },
    }
}

/// Deletes an event and, by cascade, its attendance rows — but only for
/// its owner; anybody else, and any unknown id, changes nothing.  Handles
/// `POST /event/{id}/delete`.
pub fn delete_event(db: &mut Db, session: &Session, event_id: u64) -> (r: Target)
    requires
        old(db).wf(),
    ensures
        final(db).wf(),
        match session.user_id {
            None => *final(db) == *old(db) && r == Target::Login,
            Some(uid) => r == Target::UserEvents && if has_event_owned(
                *old(db),
                event_id,
                uid,
            ) {
                event_deleted(*old(db), *final(db), event_id)
            } else {
                *final(db) == *old(db)
            },
        },
{
    match session.user_id {
        None => Target::Login,
        Some(uid) => {
            match db.find_event_by_id(event_id) {
                Some(i) => {
                    if db.events[i].user_id == uid {
                        db.delete_event_cascade(i);
                        proof {
                            let s = old(db).events@;
                            let t = db.events@;
                            assert forall|j: int| 0 <= j < t.len() implies (#[trigger] t[j]).id
                                != event_id by {
                                if j < i {
                                    assert(t[j] == s[j]);
                                } else {
                                    assert(t[j] == s[j + 1]);
                                }
                            }
                            lemma_without_event_distinct(old(db).user_events@, event_id);
                            let tu = db.user_events@;
                            assert forall|j: int| 0 <= j < tu.len() implies (
                            #[trigger] tu[j]).event_id != event_id by {
                                assert(tu.contains(tu[j]));
                            }
                        }
                        Target::UserEvents
                    } else {
                        proof {
                            if has_event_owned(*db, event_id, uid) {
                                let j = choose|j: int|
                                    0 <= j < db.events@.len() && (#[trigger] db.events@[j]).id
                                        == event_id && db.events@[j].user_id == uid;
                                assert(j == i);
                            }
                        }
                        Target::UserEvents
                    }
                },
                None => Target::UserEvents,
            }
        },
    }
}

/// Toggles the caller's "going" mark and answers with the event's fresh
/// attendee count; an anonymous caller only reads the count.  Handles
/// `POST /api/event/{id}/going`.
pub fn mark_event_going(db: &mut Db, session: &Session, event_id: u64) -> (count: u64)
    requires
        old(db).wf(),
        old(db).next_user_event_id < u64::MAX,
    ensures
        final(db).wf(),
        final(db).users@ == old(db).users@,
        final(db).events@ == old(db).events@,
        final(db).next_user_id == old(db).next_user_id,
        final(db).next_event_id == old(db).next_event_id,
        final(db).next_user_event_id <= old(db).next_user_event_id + 1,
        count == going_count(final(db).user_events@, event_id),
        match session.user_id {
            None => *final(db) == *old(db),
            Some(uid) => {
                &&& final(db).user_events@ == spec_toggle(
                    old(db).user_events@,
                    uid,
                    event_id,
                    old(db).next_user_event_id,
                )
                &&& has_attendance(old(db).user_events@, uid, event_id) ==> count == going_count(
                    old(db).user_events@,
                    event_id,
                ) - 1
                &&& !has_attendance(old(db).user_events@, uid, event_id) ==> count == going_count(
                    old(db).user_events@,
                    event_id,
                ) + 1
            },
        },
{
    match session.user_id {
        None => {},
        Some(uid) => {
            db.toggle_attendance(uid, event_id);
            proof {
                lemma_toggle_count(
                    old(db).user_events@,
                    uid,
                    event_id,
                    old(db).next_user_event_id,
                );
            }
        },
    }
    db.count_going(event_id)
}

} // verus!
