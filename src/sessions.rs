//! The set of connected browser sessions and the fan-out of reload
//! notifications to them.

use vstd::prelude::*;
use tokio::sync::mpsc::UnboundedSender;
use warp::ws::Message;

verus! {

#[verifier::external_type_specification]
#[verifier::external_body]
#[verifier::reject_recursive_types(T)]
pub struct ExUnboundedSender<T>(UnboundedSender<T>);

#[verifier::external_type_specification]
#[verifier::external_body]
pub struct ExMessage(Message);

/// The text pushed to every session when something under the root changed.
pub const RELOAD_MESSAGE: &'static str = "reload";

/// Relies on tokio's `UnboundedSender::send`: it never waits, and it fails
/// only where the receiving end has been closed, which is not known here.
#[verifier::external_body]
fn push_text(handle: &UnboundedSender<Message>, text: &str) -> (delivered: bool) {
    handle.send(Message::text(text)).is_ok()
}

/// The elements of `s` whose flag in `delivered` (same index) is set, in order.
pub open spec fn kept<T>(s: Seq<T>, delivered: Seq<bool>) -> Seq<T>
    decreases s.len(),
{
    if s.len() == 0 {
        Seq::empty()
    } else {
        let prev = kept(s.drop_last(), delivered.take(s.len() - 1));
        if delivered[s.len() - 1] {
            prev.push(s.last())
        } else {
            prev
        }
    }
}

/// The push handles of the connected sessions, one per browser tab.
/// Callers that share it serialise access (a mutex): each call below is one
/// critical section.
pub struct SessionRegistry {
    handles: Vec<UnboundedSender<Message>>,
}

impl View for SessionRegistry {
    type V = Seq<UnboundedSender<Message>>;

    closed spec fn view(&self) -> Seq<UnboundedSender<Message>> {
        self.handles@
    }
}

impl SessionRegistry {
    /// A registry with no sessions.
    pub fn new() -> (r: SessionRegistry)
        ensures
            r@ == Seq::<UnboundedSender<Message>>::empty(),
    {
        SessionRegistry { handles: Vec::new() }
    }

    /// Adds the push handle of a newly connected session.
    pub fn register(&mut self, handle: UnboundedSender<Message>)
        ensures
            final(self)@ == old(self)@.push(handle),
    {
        self.handles.push(handle);
    }

    /// The number of registered sessions.
    pub fn len(&self) -> (r: usize)
        ensures
            r == self@.len(),
    {
        self.handles.len()
    }

    /// Pushes `text` to every registered session, in one pass, and removes
    /// each session whose delivery failed. The result holds, per session in
    /// registration order, whether it was delivered to.
    pub fn broadcast(&mut self, text: &str) -> (delivered: Vec<bool>)
        ensures
            delivered@.len() == old(self)@.len(),
            final(self)@ == kept(old(self)@, delivered@),
    {
        let mut pending: Vec<UnboundedSender<Message>> = Vec::new();
        std::mem::swap(&mut self.handles, &mut pending);
        let ghost all = pending@;
        let mut delivered: Vec<bool> = Vec::new();
        for handle in it: pending.into_iter()
            invariant
                it.seq() == all,
                all == old(self)@,
                delivered@.len() == it.index(),
                self.handles@ == kept(all.take(it.index() as int), delivered@),
        {
            let ok = push_text(&handle, text);
            let ghost i = it.index() as int;
            proof {
                let next = all.take(i + 1);
                assert(next.drop_last() =~= all.take(i));
                assert(delivered@.push(ok).take(i) =~= delivered@);
            }
            delivered.push(ok);
            if ok {
                self.handles.push(handle);
            }
        }
        proof {
            assert(all.take(all.len() as int) =~= all);
        }
        delivered
    }
}

/// The kinds of file system event that a watcher reports.
#[derive(Clone, Copy, Debug, PartialEq, Eq, Structural)]
pub enum ChangeKind {
    Access,
    Create,
    Modify,
    Remove,
    Other,
}

/// Whether an event of this kind means the served files changed: creation,
/// modification and removal do; access and other events do not.
pub fn triggers_reload(kind: ChangeKind) -> (r: bool)
    ensures
        r == (kind == ChangeKind::Create || kind == ChangeKind::Modify || kind
            == ChangeKind::Remove),
{
    match kind {
        ChangeKind::Create | ChangeKind::Modify | ChangeKind::Remove => true,
        ChangeKind::Access | ChangeKind::Other => false,
    }
}

} // verus!
