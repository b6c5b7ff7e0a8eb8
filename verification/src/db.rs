//! The relational state: users, events, and the attendance join table,
//! held as plain records.  `Db::wf` is the schema invariant — surrogate
//! keys are unique and below their counters, e-mails are unique, events
//! are kept in ascending date order, and at most one attendance row
//! exists per (user, event) pair.

use vstd::prelude::*;
use crate::text::{lex_le, str_lex_le, lemma_lex_le_total, lemma_lex_le_trans, str_eq_str};

verus! {

/// A registered account.  Never deleted; `password` holds the salted hash.
pub struct User {
    pub id: u64,
    pub username: String,
    pub email: String,
    pub password: String,
}

/// An event owned by the user who created it.  `date` is `YYYY-MM-DD` text.
pub struct Event {
    pub id: u64,
    pub title: String,
    pub url: String,
    pub location: String,
    pub date: String,
    pub category: String,
    pub user_id: u64,
}

/// One "this user is going to this event" row.
#[derive(Clone, Copy, PartialEq, Eq, Structural)]
pub struct UserEvent {
    pub id: u64,
    pub user_id: u64,
    pub event_id: u64,
}

/// A listing row: an event annotated with its attendee count and, on the
/// all-events page, its creator's username.
pub struct EventSummary {
    pub id: u64,
    pub title: String,
    pub url: String,
    pub location: String,
    pub date: String,
    pub category: String,
    pub attendee_count: u64,
    pub username: String,
}

/// The whole relational state.
pub struct Db {
    pub users: Vec<User>,
    pub events: Vec<Event>,
    pub user_events: Vec<UserEvent>,
    pub next_user_id: u64,
    pub next_event_id: u64,
    pub next_user_event_id: u64,
}

/// How many attendance rows reference `event_id`.
pub open spec fn going_count(s: Seq<UserEvent>, event_id: u64) -> nat
    decreases s.len(),
{
    if s.len() == 0 {
        0
    } else {
        going_count(s.drop_last(), event_id) + (if s.last().event_id == event_id {
            1nat
        } else {
            0nat
        })
    }
}

/// Some attendance row for this (user, event) pair exists.
pub open spec fn has_attendance(s: Seq<UserEvent>, user_id: u64, event_id: u64) -> bool {
    exists|i: int|
        0 <= i < s.len() && (#[trigger] s[i]).user_id == user_id && s[i].event_id == event_id
}

/// The attendance rows left after the cascade delete of `event_id`.
pub open spec fn without_event(s: Seq<UserEvent>, event_id: u64) -> Seq<UserEvent>
    decreases s.len(),
{
    if s.len() == 0 {
        s
    } else {
        let rest = without_event(s.drop_last(), event_id);
        if s.last().event_id == event_id {
            rest
        } else {
            rest.push(s.last())
        }
    }
}

/// The attendance table after one toggle: the unique matching row leaves,
/// or a fresh row under `fresh_id` is appended.
pub open spec fn spec_toggle(
    s: Seq<UserEvent>,
    user_id: u64,
    event_id: u64,
    fresh_id: u64,
) -> Seq<UserEvent> {
    if has_attendance(s, user_id, event_id) {
        let i = choose|i: int|
            0 <= i < s.len() && (#[trigger] s[i]).user_id == user_id && s[i].event_id == event_id;
        s.remove(i)
    } else {
        s.push(UserEvent { id: fresh_id, user_id, event_id })
    }
}

/// Row ids and (user, event) pairs are pairwise distinct.
pub open spec fn user_events_distinct(s: Seq<UserEvent>) -> bool {
    forall|i: int, j: int|
        0 <= i < j < s.len() ==> (#[trigger] s[i]).id != (#[trigger] s[j]).id && !(s[i].user_id
            == s[j].user_id && s[i].event_id == s[j].event_id)
}

impl Db {
    pub fn empty() -> (r: Db)
        ensures
            r.wf(),
            r.users@.len() == 0,
            r.events@.len() == 0,
            r.user_events@.len() == 0,
            r.next_user_id == 1,
            r.next_event_id == 1,
            r.next_user_event_id == 1,
    {
        Db {
            users: Vec::new(),
            events: Vec::new(),
            user_events: Vec::new(),
            next_user_id: 1,
            next_event_id: 1,
            next_user_event_id: 1,
        }
    }

    pub open spec fn users_ok(self) -> bool {
        &&& forall|i: int, j: int|
            0 <= i < j < self.users@.len() ==> (#[trigger] self.users@[i]).id != (
            #[trigger] self.users@[j]).id && self.users@[i].email@ != self.users@[j].email@
        &&& forall|i: int|
            0 <= i < self.users@.len() ==> (#[trigger] self.users@[i]).id < self.next_user_id
    }

    pub open spec fn events_ok(self) -> bool {
        &&& forall|i: int, j: int|
            0 <= i < j < self.events@.len() ==> (#[trigger] self.events@[i]).id != (
            #[trigger] self.events@[j]).id
        &&& forall|i: int|
            0 <= i < self.events@.len() ==> (#[trigger] self.events@[i]).id < self.next_event_id
        &&& forall|i: int, j: int|
            0 <= i < j < self.events@.len() ==> lex_le(
                (#[trigger] self.events@[i]).date@,
                (#[trigger] self.events@[j]).date@,
            )
    }

    pub open spec fn user_events_ok(self) -> bool {
        &&& user_events_distinct(self.user_events@)
        &&& forall|i: int|
            0 <= i < self.user_events@.len() ==> (#[trigger] self.user_events@[i]).id
                < self.next_user_event_id
    }

    /// The schema invariant every operation preserves.
    pub open spec fn wf(self) -> bool {
        &&& self.users_ok()
        &&& self.events_ok()
        &&& self.user_events_ok()
    }

    /// Some account uses this e-mail address.
    pub open spec fn has_email(self, email: Seq<char>) -> bool {
        exists|i: int| 0 <= i < self.users@.len() && (#[trigger] self.users@[i]).email@ == email
    }

    /// First (hence, under `wf`, only) account with this e-mail address.
    pub fn find_user_by_email(&self, email: &str) -> (r: Option<usize>)
        ensures
            match r {
                Some(i) => i < self.users@.len() && self.users@[i as int].email@ == email@,
                None => !self.has_email(email@),
            },
    {
        let n = self.users.len();
        let mut i: usize = 0;
        while i < n
            invariant
                i <= n,
                n == self.users@.len(),
                forall|j: int| 0 <= j < i ==> (#[trigger] self.users@[j]).email@ != email@,
            decreases n - i,
        {
            if str_eq_str(self.users[i].email.as_str(), email) {
                return Some(i);
            }
            i = i + 1;
        }
        None
    }

    /// Account with this id, if any.
    pub fn find_user_by_id(&self, id: u64) -> (r: Option<usize>)
        ensures
            match r {
                Some(i) => i < self.users@.len() && self.users@[i as int].id == id,
                None => forall|j: int|
                    0 <= j < self.users@.len() ==> (#[trigger] self.users@[j]).id != id,
            },
    {
        let n = self.users.len();
        let mut i: usize = 0;
        while i < n
            invariant
                i <= n,
                n == self.users@.len(),
                forall|j: int| 0 <= j < i ==> (#[trigger] self.users@[j]).id != id,
            decreases n - i,
        {
            if self.users[i].id == id {
                return Some(i);
            }
            i = i + 1;
        }
        None
    }

    /// Event with this id, if any.
    pub fn find_event_by_id(&self, id: u64) -> (r: Option<usize>)
        ensures
            match r {
                Some(i) => i < self.events@.len() && self.events@[i as int].id == id,
                None => forall|j: int|
                    0 <= j < self.events@.len() ==> (#[trigger] self.events@[j]).id != id,
            },
    {
        let n = self.events.len();
        let mut i: usize = 0;
        while i < n
            invariant
                i <= n,
                n == self.events@.len(),
                forall|j: int| 0 <= j < i ==> (#[trigger] self.events@[j]).id != id,
            decreases n - i,
        {
            if self.events[i].id == id {
                return Some(i);
            }
            i = i + 1;
        }
        None
    }

    /// Attendance row for this (user, event) pair, if any.
    pub fn find_attendance(&self, user_id: u64, event_id: u64) -> (r: Option<usize>)
        ensures
            match r {
                Some(i) => i < self.user_events@.len() && self.user_events@[i as int].user_id
                    == user_id && self.user_events@[i as int].event_id == event_id,
                None => !has_attendance(self.user_events@, user_id, event_id),
            },
    {
        let n = self.user_events.len();
        let mut i: usize = 0;
        while i < n
            invariant
                i <= n,
                n == self.user_events@.len(),
                forall|j: int|
                    0 <= j < i ==> !((#[trigger] self.user_events@[j]).user_id == user_id
                        && self.user_events@[j].event_id == event_id),
            decreases n - i,
        {
            if self.user_events[i].user_id == user_id && self.user_events[i].event_id == event_id {
                return Some(i);
            }
            i = i + 1;
        }
        None
    }

    /// Counts the attendance rows of one event.
    pub fn count_going(&self, event_id: u64) -> (n: u64)
        ensures
            n == going_count(self.user_events@, event_id),
    {
        let len = self.user_events.len();
        let mut i: usize = 0;
        let mut acc: u64 = 0;
        while i < len
            invariant
                i <= len,
                len == self.user_events@.len(),
                acc <= i,
                acc == going_count(self.user_events@.take(i as int), event_id),
            decreases len - i,
        {
            proof {
                assert(self.user_events@.take(i + 1).drop_last() =~= self.user_events@.take(
                    i as int,
                ));
                assert(self.user_events@.take(i + 1).last() == self.user_events@[i as int]);
            }
            if self.user_events[i].event_id == event_id {
                acc = acc + 1;
            }
            i = i + 1;
        }
        proof {
            assert(self.user_events@.take(len as int) =~= self.user_events@);
        }
        acc
    }

    /// Inserts a fresh account under the next id.  The caller has already
    /// ruled the e-mail address taken by nobody.
    pub fn insert_user(&mut self, username: String, email: String, password: String) -> (id: u64)
        requires
            old(self).wf(),
            old(self).next_user_id < u64::MAX,
            !old(self).has_email(email@),
        ensures
            final(self).wf(),
            id == old(self).next_user_id,
            final(self).users@ == old(self).users@.push(
                (User { id: old(self).next_user_id, username, email, password }),
            ),
            final(self).events@ == old(self).events@,
            final(self).user_events@ == old(self).user_events@,
            final(self).next_user_id == old(self).next_user_id + 1,
            final(self).next_event_id == old(self).next_event_id,
            final(self).next_user_event_id == old(self).next_user_event_id,
    {
        let id = self.next_user_id;
        self.users.push(User { id, username, email, password });
        self.next_user_id = id + 1;
        proof {
            let s = self.users@;
            let old_s = old(self).users@;
            assert forall|i: int, j: int| 0 <= i < j < s.len() implies (#[trigger] s[i]).id != (
            #[trigger] s[j]).id && s[i].email@ != s[j].email@ by {
                if j == s.len() - 1 {
                    assert(old_s[i].id < old(self).next_user_id);
                    assert(old_s[i].email@ != s[j].email@);
                }
            }
        }
        id
    }

    /// Inserts a fresh event at its place in date order, under the next id.
    pub fn insert_event(
        &mut self,
        title: String,
        url: String,
        location: String,
        date: String,
        category: String,
        user_id: u64,
    ) -> (id: u64)
        requires
            old(self).wf(),
            old(self).next_event_id < u64::MAX,
        ensures
            final(self).wf(),
            id == old(self).next_event_id,
            exists|k: int|
                0 <= k <= old(self).events@.len() && final(self).events@ == old(
                    self,
                ).events@.insert(
                    k,
                    (Event { id: old(self).next_event_id, title, url, location, date, category, user_id }),
                ),
            final(self).users@ == old(self).users@,
            final(self).user_events@ == old(self).user_events@,
            final(self).next_user_id == old(self).next_user_id,
            final(self).next_event_id == old(self).next_event_id + 1,
            final(self).next_user_event_id == old(self).next_user_event_id,
    {
        let id = self.next_event_id;
        let n = self.events.len();
        let mut k: usize = 0;
        loop
            invariant
                k <= n,
                n == self.events@.len(),
                forall|i: int| 0 <= i < k ==> !lex_le(date@, (#[trigger] self.events@[i]).date@),
            ensures
                k <= n,
                forall|i: int| 0 <= i < k ==> !lex_le(date@, (#[trigger] self.events@[i]).date@),
                k < n ==> lex_le(date@, self.events@[k as int].date@),
            decreases n - k,
        {
            if k >= n {
                break ;
            }
            if str_lex_le(date.as_str(), self.events[k].date.as_str()) {
                break ;
            }
            k = k + 1;
        }
        let ghost old_s = self.events@;
        let ghost kk = k as int;
        let e = Event { id, title, url, location, date, category, user_id };
        let ghost ee = e;
        self.events.insert(k, e);
        self.next_event_id = id + 1;
        proof {
            let s = self.events@;
            assert(s == old_s.insert(kk, ee));
            assert forall|i: int| 0 <= i < s.len() implies (#[trigger] s[i]).id
                < self.next_event_id by {
                if i < kk {
                    assert(s[i] == old_s[i]);
                } else if i > kk {
                    assert(s[i] == old_s[i - 1]);
                }
            }
            assert forall|i: int, j: int| 0 <= i < j < s.len() implies (#[trigger] s[i]).id != (
            #[trigger] s[j]).id by {
                if i < kk {
                    assert(s[i] == old_s[i]);
                } else if i > kk {
                    assert(s[i] == old_s[i - 1]);
                }
                if j < kk {
                    assert(s[j] == old_s[j]);
                } else if j > kk {
                    assert(s[j] == old_s[j - 1]);
                }
            }
            assert forall|i: int, j: int| 0 <= i < j < s.len() implies lex_le(
                (#[trigger] s[i]).date@,
                (#[trigger] s[j]).date@,
            ) by {
                if i < kk {
                    assert(s[i] == old_s[i]);
                } else if i > kk {
                    assert(s[i] == old_s[i - 1]);
                }
                if j < kk {
                    assert(s[j] == old_s[j]);
                } else if j > kk {
                    assert(s[j] == old_s[j - 1]);
                }
                if j == kk {
                    // everything before the insertion point is strictly earlier
                    lemma_lex_le_total(ee.date@, old_s[i].date@);
                } else if i == kk {
                    // the loop stopped at the first later-or-equal date
                    if kk < old_s.len() {
                        if j - 1 == kk {
                            lemma_lex_le_total(old_s[kk].date@, old_s[kk].date@);
                        }
                        lemma_lex_le_trans(ee.date@, old_s[kk].date@, old_s[j - 1].date@);
                    }
                }
            }
        }
        id
    }

    /// Flips one user's "going" mark on one event: the unique matching row
    /// is deleted, or a fresh one is inserted.  The event itself need not
    /// exist.
    pub fn toggle_attendance(&mut self, user_id: u64, event_id: u64)
        requires
            old(self).wf(),
            old(self).next_user_event_id < u64::MAX,
        ensures
            final(self).wf(),
            final(self).user_events@ == spec_toggle(
                old(self).user_events@,
                user_id,
                event_id,
                old(self).next_user_event_id,
            ),
            final(self).users@ == old(self).users@,
            final(self).events@ == old(self).events@,
            final(self).next_user_id == old(self).next_user_id,
            final(self).next_event_id == old(self).next_event_id,
            final(self).next_user_event_id == if has_attendance(
                old(self).user_events@,
                user_id,
                event_id,
            ) {
                old(self).next_user_event_id
            } else {
                (old(self).next_user_event_id + 1) as u64
            },
    {
        match self.find_attendance(user_id, event_id) {
            Some(i) => {
                self.user_events.remove(i);
                proof {
                    let s = old(self).user_events@;
                    let ci = choose|ci: int|
                        0 <= ci < s.len() && (#[trigger] s[ci]).user_id == user_id
                            && s[ci].event_id == event_id;
                    assert(ci == i);
                    let t = self.user_events@;
                    assert forall|a: int, b: int| 0 <= a < b < t.len() implies (
                    #[trigger] t[a]).id != (#[trigger] t[b]).id && !(t[a].user_id == t[b].user_id
                        && t[a].event_id == t[b].event_id) by {
                        if a < i {
                            assert(t[a] == s[a]);
                        } else {
                            assert(t[a] == s[a + 1]);
                        }
                        if b < i {
                            assert(t[b] == s[b]);
                        } else {
                            assert(t[b] == s[b + 1]);
                        }
                    }
                    assert forall|a: int| 0 <= a < t.len() implies (#[trigger] t[a]).id
                        < self.next_user_event_id by {
                        if a < i {
                            assert(t[a] == s[a]);
                        } else {
                            assert(t[a] == s[a + 1]);
                        }
                    }
                }
            },
            None => {
                let id = self.next_user_event_id;
                self.user_events.push(UserEvent { id, user_id, event_id });
                self.next_user_event_id = id + 1;
                proof {
                    let s = old(self).user_events@;
                    let t = self.user_events@;
                    assert forall|a: int, b: int| 0 <= a < b < t.len() implies (
                    #[trigger] t[a]).id != (#[trigger] t[b]).id && !(t[a].user_id == t[b].user_id
                        && t[a].event_id == t[b].event_id) by {
                        if b == t.len() - 1 {
                            assert(s[a].id < old(self).next_user_event_id);
                            assert(!(s[a].user_id == user_id && s[a].event_id == event_id));
                        }
                    }
                }
            },
        }
    }

    /// Deletes the event at `idx` and, by cascade, every attendance row
    /// that references it.
    pub fn delete_event_cascade(&mut self, idx: usize)
        requires
            old(self).wf(),
            idx < old(self).events@.len(),
        ensures
            final(self).wf(),
            final(self).events@ == old(self).events@.remove(idx as int),
            final(self).user_events@ == without_event(
                old(self).user_events@,
                old(self).events@[idx as int].id,
            ),
            final(self).users@ == old(self).users@,
            final(self).next_user_id == old(self).next_user_id,
            final(self).next_event_id == old(self).next_event_id,
            final(self).next_user_event_id == old(self).next_user_event_id,
    {
        let eid = self.events[idx].id;
        self.events.remove(idx);
        let n = self.user_events.len();
        let mut kept: Vec<UserEvent> = Vec::new();
        let mut i: usize = 0;
        while i < n
            invariant
                i <= n,
                n == self.user_events@.len(),
                kept@ == without_event(self.user_events@.take(i as int), eid),
            decreases n - i,
        {
            proof {
                assert(self.user_events@.take(i + 1).drop_last() =~= self.user_events@.take(
                    i as int,
                ));
                assert(self.user_events@.take(i + 1).last() == self.user_events@[i as int]);
            }
            let ue = self.user_events[i];
            if ue.event_id != eid {
                kept.push(ue);
            }
            i = i + 1;
        }
        proof {
            assert(self.user_events@.take(n as int) =~= self.user_events@);
        }
        self.user_events = kept;
        proof {
            let s = old(self).events@;
            let t = self.events@;
            let ii = idx as int;
            assert forall|a: int, b: int| 0 <= a < b < t.len() implies (#[trigger] t[a]).id != (
            #[trigger] t[b]).id && lex_le(t[a].date@, t[b].date@) by {
                if a < ii {
                    assert(t[a] == s[a]);
                } else {
                    assert(t[a] == s[a + 1]);
                }
                if b < ii {
                    assert(t[b] == s[b]);
                } else {
                    assert(t[b] == s[b + 1]);
                }
            }
            assert forall|a: int| 0 <= a < t.len() implies (#[trigger] t[a]).id
                < self.next_event_id by {
                if a < ii {
                    assert(t[a] == s[a]);
                } else {
                    assert(t[a] == s[a + 1]);
                }
            }
            let su = old(self).user_events@;
            lemma_without_event_distinct(su, eid);
            let tu = self.user_events@;
            assert forall|a: int| 0 <= a < tu.len() implies (#[trigger] tu[a]).id
                < self.next_user_event_id by {
                assert(tu.contains(tu[a]));
                assert(su.contains(tu[a]));
                let k = choose|k: int| 0 <= k < su.len() && su[k] == tu[a];
                assert(su[k].id < self.next_user_event_id);
            }
        }
    }
}

/// Removing one row lowers the count exactly when the row references the
/// event.
pub proof fn lemma_going_count_remove(s: Seq<UserEvent>, i: int, event_id: u64)
    requires
        0 <= i < s.len(),
    ensures
        going_count(s.remove(i), event_id) == going_count(s, event_id) - (if s[i].event_id
            == event_id {
            1int
        } else {
            0int
        }),
    decreases s.len(),
{
    if i == s.len() - 1 {
        assert(s.remove(i) =~= s.drop_last());
    } else {
        assert(s.remove(i).drop_last() =~= s.drop_last().remove(i));
        assert(s.remove(i).last() == s.last());
        lemma_going_count_remove(s.drop_last(), i, event_id);
    }
}

/// The cascade keeps the remaining rows distinct, drops every row of the
/// deleted event, and invents none.
pub proof fn lemma_without_event_distinct(s: Seq<UserEvent>, event_id: u64)
    requires
        user_events_distinct(s),
    ensures
        user_events_distinct(without_event(s, event_id)),
        forall|x: UserEvent| #[trigger] without_event(s, event_id).contains(x) ==> s.contains(x),
        forall|x: UserEvent|
            #[trigger] without_event(s, event_id).contains(x) ==> x.event_id != event_id,
    decreases s.len(),
{
    if s.len() > 0 {
        let pre = s.drop_last();
        assert forall|a: int, b: int| 0 <= a < b < pre.len() implies (#[trigger] pre[a]).id != (
        #[trigger] pre[b]).id && !(pre[a].user_id == pre[b].user_id && pre[a].event_id
            == pre[b].event_id) by {
            assert(pre[a] == s[a]);
            assert(pre[b] == s[b]);
        }
        lemma_without_event_distinct(pre, event_id);
        let t = without_event(s, event_id);
        let tp = without_event(pre, event_id);
        if s.last().event_id == event_id {
            assert(t == tp);
            assert forall|x: UserEvent| #[trigger] t.contains(x) implies s.contains(x) by {
                assert(pre.contains(x));
                let k = choose|k: int| 0 <= k < pre.len() && pre[k] == x;
                assert(s[k] == x);
            }
        } else {
            assert(t == tp.push(s.last()));
            assert forall|x: UserEvent| #[trigger] t.contains(x) implies s.contains(x)
                && x.event_id != event_id by {
                let j = choose|j: int| 0 <= j < t.len() && t[j] == x;
                if j < tp.len() {
                    assert(tp[j] == x);
                    assert(tp.contains(x));
                    assert(pre.contains(x));
                    let k = choose|k: int| 0 <= k < pre.len() && pre[k] == x;
                    assert(s[k] == x);
                } else {
                    assert(x == s.last());
                    assert(s[s.len() - 1] == x);
                }
            }
            assert forall|a: int, b: int| 0 <= a < b < t.len() implies (#[trigger] t[a]).id != (
            #[trigger] t[b]).id && !(t[a].user_id == t[b].user_id && t[a].event_id
                == t[b].event_id) by {
                if b < tp.len() {
                    assert(t[a] == tp[a]);
                    assert(t[b] == tp[b]);
                } else {
                    assert(t[b] == s.last());
                    assert(t[a] == tp[a]);
                    assert(tp.contains(tp[a]));
                    assert(pre.contains(tp[a]));
                    let k = choose|k: int| 0 <= k < pre.len() && pre[k] == tp[a];
                    assert(s[k] == tp[a]);
                    assert(s[k].id != s[s.len() - 1].id);
                }
            }
        }
    }
}

/// One toggle moves the attendee count by exactly one, down when the pair
/// was marked and up when it was not.
pub proof fn lemma_toggle_count(s: Seq<UserEvent>, user_id: u64, event_id: u64, fresh_id: u64)
    ensures
        going_count(spec_toggle(s, user_id, event_id, fresh_id), event_id) == if has_attendance(
            s,
            user_id,
            event_id,
        ) {
            going_count(s, event_id) - 1
        } else {
            going_count(s, event_id) + 1int
        },
{
    if has_attendance(s, user_id, event_id) {
        let i = choose|i: int|
            0 <= i < s.len() && (#[trigger] s[i]).user_id == user_id && s[i].event_id == event_id;
        lemma_going_count_remove(s, i, event_id);
    } else {
        let t = spec_toggle(s, user_id, event_id, fresh_id);
        assert(t.drop_last() =~= s);
    }
}

/// Toggling the same (user, event) pair twice in sequence returns the
/// attendee count to its original value.
pub proof fn lemma_toggle_involution(
    s: Seq<UserEvent>,
    user_id: u64,
    event_id: u64,
    id1: u64,
    id2: u64,
)
    requires
        user_events_distinct(s),
    ensures
        going_count(
            spec_toggle(spec_toggle(s, user_id, event_id, id1), user_id, event_id, id2),
            event_id,
        ) == going_count(s, event_id),
{
    let t1 = spec_toggle(s, user_id, event_id, id1);
    if has_attendance(s, user_id, event_id) {
        let i = choose|i: int|
            0 <= i < s.len() && (#[trigger] s[i]).user_id == user_id && s[i].event_id == event_id;
        assert(t1 == s.remove(i));
        assert(!has_attendance(t1, user_id, event_id)) by {
            if has_attendance(t1, user_id, event_id) {
                let j = choose|j: int|
                    0 <= j < t1.len() && (#[trigger] t1[j]).user_id == user_id && t1[j].event_id
                        == event_id;
                if j < i {
                    assert(t1[j] == s[j]);
                } else {
                    assert(t1[j] == s[j + 1]);
                }
            }
        }
        lemma_toggle_count(s, user_id, event_id, id1);
        lemma_toggle_count(t1, user_id, event_id, id2);
    } else {
        assert(t1 == s.push(UserEvent { id: id1, user_id, event_id }));
        assert(t1[s.len() as int].user_id == user_id && t1[s.len() as int].event_id == event_id);
        assert(has_attendance(t1, user_id, event_id));
        lemma_toggle_count(s, user_id, event_id, id1);
        lemma_toggle_count(t1, user_id, event_id, id2);
    }
}

} // verus!
