//! The routing directory: a process-wide map from a user's identity (its
//! bearer token) to the delivery handle of the session that authenticated
//! with it. The map itself comes from the `dashmap` crate and the handles
//! from `tokio`; both stand behind trusted items, and the directory's own
//! operations are stated against a `Map` model of the contents.

use vstd::prelude::*;
use crate::messages::AppMessage;

verus! {

/// The delivery handle of one session: the sending half of that session's
/// unbounded message queue.
pub type MessageSender = tokio::sync::mpsc::UnboundedSender<AppMessage>;

/// The receiving half of a session's message queue, consumed by its run loop.
pub type MessageReceiver = tokio::sync::mpsc::UnboundedReceiver<AppMessage>;

#[verifier::external_type_specification]
#[verifier::external_body]
#[verifier::reject_recursive_types(T)]
pub struct ExUnboundedSender<T>(tokio::sync::mpsc::UnboundedSender<T>);

#[verifier::external_type_specification]
#[verifier::external_body]
#[verifier::reject_recursive_types(T)]
pub struct ExUnboundedReceiver<T>(tokio::sync::mpsc::UnboundedReceiver<T>);

#[verifier::external_type_specification]
#[verifier::external_body]
#[verifier::reject_recursive_types(K)]
#[verifier::reject_recursive_types(V)]
#[verifier::reject_recursive_types(S)]
pub struct ExDashMap<K, V, S>(dashmap::DashMap<K, V, S>);

/// Relies on `tokio::sync::mpsc::unbounded_channel`: returns the sending and
/// receiving halves of a fresh unbounded queue. Which queue a handle belongs
/// to is not modelled, so nothing is stated here; what a session pushes
/// through a handle is checked by the tests.
#[verifier::external_body]
pub(crate) fn make_channel() -> (r: (MessageSender, MessageReceiver)) {
    let (tx, rx) = tokio::sync::mpsc::unbounded_channel();
    (tx, rx)
}

/// Relies on `UnboundedSender::clone`: a clone delivers into the same queue
/// as the handle it was cloned from, so the two are identified here.
#[verifier::external_body]
pub(crate) fn clone_sender(s: &MessageSender) -> (r: MessageSender)
    ensures
        r == *s,
{
    s.clone()
}

/// Relies on `UnboundedSender::send`: never blocks, and fails exactly when
/// the receiving half has been dropped. Whether the receiver is still alive
/// depends on the machine's state, so only the success flag is returned.
#[verifier::external_body]
pub(crate) fn send_message(s: &MessageSender, m: AppMessage) -> (ok: bool) {
    s.send(m).is_ok()
}

/// What the shared map holds: its contents as a map from identity to handle.
pub uninterp spec fn dash_entries(m: dashmap::DashMap<String, MessageSender>) -> Map<
    Seq<char>,
    MessageSender,
>;

/// Relies on `DashMap::new`: creates a map. Its emptiness is not stated
/// here; `dash_clear` establishes it.
#[verifier::external_body]
fn dash_new() -> (m: dashmap::DashMap<String, MessageSender>) {
    dashmap::DashMap::new()
}

/// Relies on `DashMap::clear`: removes every entry that the map held.
#[verifier::external_body]
fn dash_clear(m: &mut dashmap::DashMap<String, MessageSender>)
    ensures
        dash_entries(*final(m)) == dash_entries(*old(m)).remove_keys(
            dash_entries(*old(m)).dom(),
        ),
{
    m.clear();
}

/// Relies on `DashMap::insert`: registers or overwrites the entry for `id`;
/// a later registration under the same identity shadows an earlier one.
#[verifier::external_body]
fn dash_insert(m: &mut dashmap::DashMap<String, MessageSender>, id: String, h: MessageSender)
    ensures
        dash_entries(*final(m)) == dash_entries(*old(m)).insert(id@, h),
{
    m.insert(id, h);
}

/// Relies on `DashMap::get`: returns a clone of the handle registered under
/// `id`, if any.
#[verifier::external_body]
fn dash_lookup(m: &dashmap::DashMap<String, MessageSender>, id: &str) -> (r: Option<
    MessageSender,
>)
    ensures
        r is Some <==> dash_entries(*m).contains_key(id@),
        r matches Some(h) ==> h == dash_entries(*m)[id@],
{
    match m.get(id) {
        Some(entry) => Some(entry.value().clone()),
        None => None,
    }
}

/// Relies on `DashMap::remove`: removes the entry for `id` if one is
/// present, and does nothing otherwise.
#[verifier::external_body]
fn dash_remove(m: &mut dashmap::DashMap<String, MessageSender>, id: &str)
    ensures
        dash_entries(*final(m)) == dash_entries(*old(m)).remove(id@),
{
    m.remove(id);
}

/// The process-wide registry of authenticated sessions.
pub struct Directory {
    inner: dashmap::DashMap<String, MessageSender>,
}

impl Directory {
    /// The directory's contents, as a map from identity to delivery handle.
    pub closed spec fn entries(&self) -> Map<Seq<char>, MessageSender> {
        dash_entries(self.inner)
    }

    /// A fresh directory holds no entries.
    pub fn new() -> (d: Directory)
        ensures
            d.entries() == Map::<Seq<char>, MessageSender>::empty(),
    {
        let mut m = dash_new();
        dash_clear(&mut m);
        proof {
            assert(dash_entries(m) =~= Map::<Seq<char>, MessageSender>::empty());
        }
        Directory { inner: m }
    }

    /// Registers `h` as the delivery handle for `id`, shadowing any earlier
    /// entry under the same identity.
    pub fn insert(&mut self, id: String, h: MessageSender)
        ensures
            final(self).entries() == old(self).entries().insert(id@, h),
    {
        dash_insert(&mut self.inner, id, h);
    }

    /// Returns the delivery handle registered under `id`, if any.
    pub fn lookup(&self, id: &str) -> (r: Option<MessageSender>)
        ensures
            r is Some <==> self.entries().contains_key(id@),
            r matches Some(h) ==> h == self.entries()[id@],
    {
        dash_lookup(&self.inner, id)
    }

    /// Removes the entry for `id`; a no-op if the identity is absent.
    pub fn remove(&mut self, id: &str)
        ensures
            final(self).entries() == old(self).entries().remove(id@),
    {
        dash_remove(&mut self.inner, id);
    }
}

/// Removing an identity is idempotent: a second removal of the same identity
/// finds nothing and leaves the directory exactly as the first left it, so
/// calling `Directory::remove` twice in a row is as safe as calling it once
/// (neither call can fail, since `remove` has no precondition).
pub proof fn lemma_remove_idempotent(m: Map<Seq<char>, MessageSender>, id: Seq<char>)
    ensures
        m.remove(id).remove(id) == m.remove(id),
{
    assert(m.remove(id).remove(id) =~= m.remove(id));
}

} // verus!
