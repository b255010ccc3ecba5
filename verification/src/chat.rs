//! The event-notified backend's logic: an inbox owned by the backend
//! instance that buffers message bodies from the authorized sender and
//! discards everything else.
//!
//! The chat session and its background synchronization task live in the
//! surrounding application; the task feeds every incoming room message
//! through [`ChatInbox::accept`], and the blocking receive, once woken,
//! consumes the newest buffered message through [`receive_chat`].

use vstd::prelude::*;

use crate::backend::BackendCommand;
use crate::classifier::{classify_chat_reply, spec_classify_chat};
use crate::text::str_eq;

verus! {

/// The buffered control replies of one backend instance, together with the
/// authorized sender they are all from.
pub struct ChatInbox {
    /// The only identity whose messages are accepted.
    pub authorized: String,
    /// The accepted message bodies, oldest first.
    pub messages: Vec<String>,
    /// The sender of each buffered message, kept for the record: the inbox
    /// invariant says each one is the authorized sender.
    pub senders: Ghost<Seq<Seq<char>>>,
}

impl ChatInbox {
    /// The inbox invariant: every buffered message came from the authorized
    /// sender.
    pub open spec fn wf(self) -> bool {
        &&& self.senders@.len() == self.messages@.len()
        &&& forall|i: int| 0 <= i < self.senders@.len() ==> self.senders@[i] == self.authorized@
    }

    /// An empty inbox accepting messages from `authorized` only.
    pub fn new(authorized: String) -> (r: Self)
        ensures
            r.wf(),
            r.authorized == authorized,
            r.messages@.len() == 0,
    {
        ChatInbox { authorized, messages: Vec::new(), senders: Ghost(Seq::empty()) }
    }

    /// Offers an incoming message to the inbox: it is buffered exactly when
    /// its sender is the authorized one, and discarded otherwise, leaving
    /// the inbox unchanged.
    pub fn accept(&mut self, sender: &str, body: String) -> (accepted: bool)
        requires
            old(self).wf(),
        ensures
            final(self).wf(),
            accepted <==> sender@ == old(self).authorized@,
            final(self).authorized == old(self).authorized,
            accepted ==> final(self).messages@ == old(self).messages@.push(body)
                && final(self).senders@ == old(self).senders@.push(sender@),
            !accepted ==> *final(self) == *old(self),
    {
        if str_eq(sender, self.authorized.as_str()) {
            self.messages.push(body);
            proof {
                self.senders@ = self.senders@.push(sender@);
            }
            true
        } else {
            false
        }
    }

    /// Takes the newest buffered message, or `None` when the inbox is empty
    /// (the receiver then waits for the next wake signal).
    pub fn take_latest(&mut self) -> (r: Option<String>)
        requires
            old(self).wf(),
        ensures
            final(self).wf(),
            final(self).authorized == old(self).authorized,
            old(self).messages@.len() == 0 ==> r is None && final(self).messages@ == old(
                self,
            ).messages@ && final(self).senders@ == old(self).senders@,
            old(self).messages@.len() > 0 ==> r == Some(old(self).messages@.last())
                && final(self).messages@ == old(self).messages@.drop_last() && final(self).senders@
                == old(self).senders@.drop_last(),
    {
        let r = self.messages.pop();
        if r.is_some() {
            proof {
                self.senders@ = self.senders@.drop_last();
            }
        }
        r
    }
}

/// Consumes and classifies the newest buffered reply. The command, when one
/// comes back, derives from a buffered message, and by the inbox invariant
/// that message's sender is the authorized one: a message from any other
/// sender can never produce a command.
pub fn receive_chat(inbox: &mut ChatInbox) -> (r: Option<BackendCommand>)
    requires
        old(inbox).wf(),
    ensures
        final(inbox).wf(),
        final(inbox).authorized == old(inbox).authorized,
        old(inbox).messages@.len() == 0 ==> r is None && final(inbox).messages@ == old(
            inbox,
        ).messages@ && final(inbox).senders@ == old(inbox).senders@,
        old(inbox).messages@.len() > 0 ==> ({
            &&& r matches Some(c) && c@ == spec_classify_chat(old(inbox).messages@.last()@)
            &&& old(inbox).senders@.last() == old(inbox).authorized@
            &&& final(inbox).messages@ == old(inbox).messages@.drop_last()
        }),
{
    match inbox.take_latest() {
        Some(body) => Some(classify_chat_reply(body.as_str())),
        None => None,
    }
}

} // verus!
