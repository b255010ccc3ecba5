//! The mailbox-polling backend's logic: startup cleanup of stale messages,
//! selection of the authorized sender's mail, and classification of a raw
//! email into a control command.
//!
//! The IMAP/SMTP sessions themselves are network I/O and live in the
//! surrounding application; it hands over mailbox snapshots (sender and raw
//! bytes per message) and performs the deletions and sleeps decided here.

use vstd::prelude::*;

use crate::backend::{BackendCommand, BackendError};
use crate::classifier::{classify_email_reply, spec_classify_email};
use crate::text::str_eq;

verus! {

broadcast use vstd::string::group_string_axioms;

/// One mailbox entry: who sent it and the raw message bytes.
pub struct MailMessage {
    pub sender: String,
    pub raw: Vec<u8>,
}

/// The text part that the mail parser extracts from raw message bytes, if
/// the bytes parse as a message with a text body. A function of the bytes
/// alone.
pub uninterp spec fn email_text_of(raw: Seq<u8>) -> Option<Seq<char>>;

/// Relies on mail_parser's `MessageParser::parse` and `Message::body_text`:
/// with the default parser settings the extracted text depends on the raw
/// bytes alone; parsing never panics, and `None` comes back when the bytes
/// hold no parseable message or no text part.
#[verifier::external_body]
fn extract_email_text(raw: &[u8]) -> (r: Option<String>)
    ensures
        r is Some <==> email_text_of(raw@) is Some,
        r matches Some(s) ==> email_text_of(raw@) == Some(s@),
{
    let parser = mail_parser::MessageParser::default();
    let message = parser.parse(raw)?;
    message.body_text(0).map(|t| t.into_owned())
}

/// Parses raw email bytes and classifies the extracted text part. Bytes that
/// hold no parseable text yield the parse error; any extracted text is
/// classified by the email reply classifier.
pub fn classify_email_bytes(raw: &[u8]) -> (r: Result<BackendCommand, BackendError>)
    ensures
        r is Ok <==> email_text_of(raw@) is Some,
        email_text_of(raw@) matches Some(body) ==> r matches Ok(c) && c@ == spec_classify_email(
            body,
        ),
        r matches Err(e) ==> e matches BackendError::Unknown(m) && m@ == "Failed to parse email"@,
{
    match extract_email_text(raw) {
        Some(body) => Ok(classify_email_reply(body.as_str())),
        None => Err(BackendError::Unknown(String::from_str("Failed to parse email"))),
    }
}

/// Lists, in increasing order, the positions of every message from the
/// authorized sender: the messages the startup cleanup deletes, so that no
/// stale reply from a previous run can be classified as the current one.
pub fn cleanup_indices(mailbox: &Vec<MailMessage>, authorized: &str) -> (r: Vec<usize>)
    ensures
        forall|k: int| 0 <= k < r@.len() ==> (#[trigger] r@[k]) < mailbox@.len()
            && mailbox@[r@[k] as int].sender@ == authorized@,
        forall|j: int|
            0 <= j < mailbox@.len() && (#[trigger] mailbox@[j]).sender@ == authorized@
                ==> r@.contains(j as usize),
        forall|k1: int, k2: int| 0 <= k1 < k2 < r@.len() ==> r@[k1] < r@[k2],
{
    let n = mailbox.len();
    let mut r: Vec<usize> = Vec::new();
    let mut i: usize = 0;
    while i < n
        invariant
            i <= n,
            n == mailbox@.len(),
            forall|k: int| 0 <= k < r@.len() ==> (#[trigger] r@[k]) < i
                && mailbox@[r@[k] as int].sender@ == authorized@,
            forall|j: int|
                0 <= j < i && (#[trigger] mailbox@[j]).sender@ == authorized@ ==> r@.contains(
                    j as usize,
                ),
            forall|k1: int, k2: int| 0 <= k1 < k2 < r@.len() ==> r@[k1] < r@[k2],
        decreases n - i,
    {
        if str_eq(mailbox[i].sender.as_str(), authorized) {
            proof {
                let r2 = r@.push(i);
                assert forall|j: int|
                    0 <= j < i + 1 && (#[trigger] mailbox@[j]).sender@ == authorized@ implies
                    r2.contains(j as usize) by {
                    if j < i {
                        let k = choose|k: int| 0 <= k < r@.len() && r@[k] == j as usize;
                        assert(r2[k] == j as usize);
                    } else {
                        assert(r2[r@.len() as int] == i);
                    }
                }
            }
            r.push(i);
        } else {
            proof {
                assert forall|j: int|
                    0 <= j < i + 1 && (#[trigger] mailbox@[j]).sender@ == authorized@ implies
                    r@.contains(j as usize) by {
                    let k = choose|k: int| 0 <= k < r@.len() && r@[k] == j as usize;
                }
            }
        }
        i += 1;
    }
    r
}

/// Finds the first message from the authorized sender, or `None` when the
/// mailbox holds none (the poll then sleeps and searches again).
pub fn find_authorized(mailbox: &Vec<MailMessage>, authorized: &str) -> (r: Option<usize>)
    ensures
        r is None <==> (forall|j: int|
            0 <= j < mailbox@.len() ==> (#[trigger] mailbox@[j]).sender@ != authorized@),
        r matches Some(i) ==> i < mailbox@.len() && mailbox@[i as int].sender@ == authorized@ && (
        forall|j: int| 0 <= j < i ==> (#[trigger] mailbox@[j]).sender@ != authorized@),
{
    let n = mailbox.len();
    let mut i: usize = 0;
    while i < n
        invariant
            i <= n,
            n == mailbox@.len(),
            forall|j: int| 0 <= j < i ==> (#[trigger] mailbox@[j]).sender@ != authorized@,
        decreases n - i,
    {
        if str_eq(mailbox[i].sender.as_str(), authorized) {
            return Some(i);
        }
        i += 1;
    }
    None
}

/// One poll over a mailbox snapshot: picks the first message from the
/// authorized sender and classifies its bytes, or reports that there is
/// nothing to consume yet. A message from any other sender is never
/// classified. The caller deletes the consumed message and, on `None`,
/// sleeps and polls again.
pub fn receive_from_mailbox(mailbox: &Vec<MailMessage>, authorized: &str) -> (r: Option<
    (usize, Result<BackendCommand, BackendError>),
>)
    ensures
        r is None <==> (forall|j: int|
            0 <= j < mailbox@.len() ==> (#[trigger] mailbox@[j]).sender@ != authorized@),
        r matches Some((i, c)) ==> ({
            &&& i < mailbox@.len()
            &&& mailbox@[i as int].sender@ == authorized@
            &&& (forall|j: int| 0 <= j < i ==> (#[trigger] mailbox@[j]).sender@ != authorized@)
            &&& (c is Ok <==> email_text_of(mailbox@[i as int].raw@) is Some)
            &&& (email_text_of(mailbox@[i as int].raw@) matches Some(body) ==> c matches Ok(cmd)
                && cmd@ == spec_classify_email(body))
        }),
{
    match find_authorized(mailbox, authorized) {
        Some(i) => {
            let c = classify_email_bytes(mailbox[i].raw.as_slice());
            Some((i, c))
        },
        None => None,
    }
}

} // verus!
