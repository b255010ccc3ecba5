use remotecmd::backend::BackendCommand;
use remotecmd::chat::{receive_chat, ChatInbox};

const USER: &str = "@operator:example.org";

#[test]
fn unauthorized_sender_is_discarded() {
    let mut inbox = ChatInbox::new(String::from(USER));
    assert!(!inbox.accept("@impostor:example.org", String::from("done")));
    // Nothing was buffered: there is nothing to receive.
    assert!(receive_chat(&mut inbox).is_none());
}

#[test]
fn authorized_sender_is_buffered_and_classified() {
    let mut inbox = ChatInbox::new(String::from(USER));
    assert!(inbox.accept(USER, String::from("rerun")));
    match receive_chat(&mut inbox) {
        Some(cmd) => assert!(matches!(cmd, BackendCommand::Rerun)),
        None => panic!("expected a buffered reply"),
    }
    assert!(receive_chat(&mut inbox).is_none());
}

#[test]
fn newest_message_is_consumed_first() {
    let mut inbox = ChatInbox::new(String::from(USER));
    assert!(inbox.accept(USER, String::from("cat")));
    assert!(inbox.accept(USER, String::from("done")));
    match receive_chat(&mut inbox) {
        Some(cmd) => assert!(matches!(cmd, BackendCommand::Done)),
        None => panic!("expected a buffered reply"),
    }
    match receive_chat(&mut inbox) {
        Some(cmd) => assert!(matches!(cmd, BackendCommand::Cat)),
        None => panic!("expected a buffered reply"),
    }
}

#[test]
fn mixed_senders_only_authorized_survive() {
    let mut inbox = ChatInbox::new(String::from(USER));
    assert!(!inbox.accept("@noise:example.org", String::from("rerun")));
    assert!(inbox.accept(USER, String::from("echo hello")));
    assert!(!inbox.accept("@noise:example.org", String::from("done")));
    match receive_chat(&mut inbox) {
        Some(BackendCommand::Unknown(text)) => assert_eq!(text, "echo hello"),
        _ => panic!("expected the authorized sender's text"),
    }
    assert!(receive_chat(&mut inbox).is_none());
}
