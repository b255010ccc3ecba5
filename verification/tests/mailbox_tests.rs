use remotecmd::backend::{BackendCommand, BackendError};
use remotecmd::mailbox::{
    classify_email_bytes, cleanup_indices, find_authorized, receive_from_mailbox, MailMessage,
};

const SENDER: &str = "operator@example.com";

fn raw_email(body: &str) -> Vec<u8> {
    let mut raw = String::new();
    raw.push_str("From: Operator <operator@example.com>\r\n");
    raw.push_str("To: runner@example.com\r\n");
    raw.push_str("Subject: Re: Command finished\r\n");
    raw.push_str("Content-Type: text/plain; charset=utf-8\r\n");
    raw.push_str("\r\n");
    raw.push_str(body);
    raw.into_bytes()
}

fn message(sender: &str, body: &str) -> MailMessage {
    MailMessage {
        sender: String::from(sender),
        raw: raw_email(body),
    }
}

#[test]
fn startup_cleanup_deletes_every_stale_message() {
    // Three pre-seeded messages from the authorized sender: all three are
    // listed for deletion before any receive.
    let mailbox = vec![
        message(SENDER, "old one"),
        message(SENDER, "old two"),
        message(SENDER, "old three"),
    ];
    assert_eq!(cleanup_indices(&mailbox, SENDER), vec![0, 1, 2]);
}

#[test]
fn startup_cleanup_leaves_other_senders() {
    let mailbox = vec![
        message("noise@example.com", "spam"),
        message(SENDER, "stale reply"),
        message("other@example.com", "hello"),
        message(SENDER, "another stale reply"),
    ];
    assert_eq!(cleanup_indices(&mailbox, SENDER), vec![1, 3]);
}

#[test]
fn find_skips_unauthorized_senders() {
    let mailbox = vec![
        message("noise@example.com", "rerun"),
        message(SENDER, "done"),
    ];
    assert_eq!(find_authorized(&mailbox, SENDER), Some(1));
}

#[test]
fn find_nothing_to_consume() {
    let mailbox = vec![message("noise@example.com", "rerun")];
    assert_eq!(find_authorized(&mailbox, SENDER), None);
}

#[test]
fn classify_raw_email_rerun() {
    let cmd = classify_email_bytes(&raw_email("rerun\n")).unwrap();
    assert!(matches!(cmd, BackendCommand::Rerun));
}

#[test]
fn classify_raw_email_with_quoting() {
    let body = "done\n\nOn Tuesday at 09:12, Runner <runner@example.com> wrote:\n> STDOUT:\n> total 0\n";
    let cmd = classify_email_bytes(&raw_email(body)).unwrap();
    assert!(matches!(cmd, BackendCommand::Done));
}

#[test]
fn classify_unparseable_bytes_is_an_error() {
    match classify_email_bytes(&[]) {
        Err(BackendError::Unknown(reason)) => assert_eq!(reason, "Failed to parse email"),
        _ => panic!("expected the parse error"),
    }
}

#[test]
fn receive_never_classifies_unauthorized_mail() {
    // Only an impostor's message is present: nothing is consumed, the poll
    // keeps waiting.
    let mailbox = vec![message("impostor@example.com", "done")];
    assert!(receive_from_mailbox(&mailbox, SENDER).is_none());
}

#[test]
fn receive_takes_first_authorized_message() {
    let mailbox = vec![
        message("impostor@example.com", "done"),
        message(SENDER, "rerun\n"),
        message(SENDER, "cat\n"),
    ];
    match receive_from_mailbox(&mailbox, SENDER) {
        Some((index, Ok(cmd))) => {
            assert_eq!(index, 1);
            assert!(matches!(cmd, BackendCommand::Rerun));
        }
        _ => panic!("expected the first authorized message"),
    }
}
