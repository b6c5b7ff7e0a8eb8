//! The per-request ambient state: the authenticated user id held by the
//! caller's session, and the one-shot flash messages that survive exactly
//! one redirect-then-render cycle.

use vstd::prelude::*;
use crate::db::EventSummary;

verus! {

/// Severity of a flash message.
#[derive(Clone, Copy)]
pub enum Level {
    Info,
    Error,
}

/// A one-shot notification shown on the next rendered page.
pub struct Message {
    pub level: Level,
    pub text: String,
}

/// The flash-message bag of one session: written by form handlers,
/// consumed exactly once by the next page render.
pub struct Flash {
    pub msgs: Vec<Message>,
}

/// The authenticated-user marker of one session.
pub struct Session {
    pub user_id: Option<u64>,
}

/// Where a form handler sends the browser next.
#[derive(Clone, Copy, PartialEq, Eq, Structural, Debug)]
pub enum Target {
    Home,
    Login,
    Signup,
    NewEvent,
    UserEvents,
}

impl Session {
    pub open spec fn is_logged_in(self) -> bool {
        self.user_id is Some
    }
}

impl Flash {
    pub fn new() -> (r: Flash)
        ensures
            r.msgs@.len() == 0,
    {
        Flash { msgs: Vec::new() }
    }
}

/// A rendered page's shared context: the title, the flash messages taken
/// from the bag, the login state, and whatever the page lists.
pub struct Page {
    pub title: String,
    pub messages: Vec<Message>,
    pub is_logged_in: bool,
    pub username: Option<String>,
    pub events: Vec<EventSummary>,
    pub locations: Vec<String>,
    pub categories: Vec<String>,
}

/// What a request handler answers with: a page to render, or a redirect.
pub enum PageOrRedirect {
    Page(Page),
    Redirect(Target),
}

/// `new` is `old` with one `level`-severity message of text `text` appended.
pub open spec fn pushed(new: Seq<Message>, old: Seq<Message>, level: Level, text: Seq<char>) -> bool {
    &&& new.len() == old.len() + 1
    &&& forall|i: int| 0 <= i < old.len() ==> #[trigger] new[i] == old[i]
    &&& new.last().level == level
    &&& new.last().text@ == text
}

/// Appends an informational flash message.
pub fn flash_info(f: &mut Flash, text: String)
    ensures
        final(f).msgs@ == old(f).msgs@.push((Message { level: Level::Info, text })),
{
    f.msgs.push(Message { level: Level::Info, text });
}

/// Appends an error flash message.
pub fn flash_error(f: &mut Flash, text: String)
    ensures
        final(f).msgs@ == old(f).msgs@.push((Message { level: Level::Error, text })),
{
    f.msgs.push(Message { level: Level::Error, text });
}

/// Appends a batch of messages to the flash bag, keeping their order.
pub fn flash_extend(f: &mut Flash, msgs: Vec<Message>)
    ensures
        final(f).msgs@.len() == old(f).msgs@.len() + msgs@.len(),
        final(f).msgs@.take(old(f).msgs@.len() as int) == old(f).msgs@,
        final(f).msgs@.skip(old(f).msgs@.len() as int) == msgs@,
{
    let ghost orig = msgs@;
    let ghost base = f.msgs@;
    let mut msgs = msgs;
    let n = msgs.len();
    let mut k: usize = 0;
    proof {
        assert(orig.skip(0) =~= orig);
        assert(base + orig.take(0) =~= base);
    }
    while k < n
        invariant
            k <= n,
            n == orig.len(),
            msgs@ == orig.skip(k as int),
            f.msgs@ == base + orig.take(k as int),
        decreases n - k,
    {
        let m = msgs.remove(0);
        proof {
            assert(orig.skip(k as int)[0] == orig[k as int]);
            assert(orig.skip(k as int).remove(0) =~= orig.skip(k + 1));
            assert((base + orig.take(k as int)).push(orig[k as int]) =~= base + orig.take(k + 1));
        }
        f.msgs.push(m);
        k = k + 1;
    }
    proof {
        assert(orig.take(n as int) =~= orig);
        assert((base + orig).take(base.len() as int) =~= base);
        assert((base + orig).skip(base.len() as int) =~= orig);
    }
}

/// Hands out the pending flash messages and leaves the bag empty, so a
/// message is read at most once.
pub fn take_messages(f: &mut Flash) -> (r: Vec<Message>)
    ensures
        r@ == old(f).msgs@,
        final(f).msgs@.len() == 0,
{
    let mut taken: Vec<Message> = Vec::new();
    core::mem::swap(&mut taken, &mut f.msgs);
    taken
}

} // verus!
