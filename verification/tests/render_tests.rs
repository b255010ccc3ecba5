use remotecmd::backend::BackendError;
use remotecmd::render::{chat_report, done_ack, email_body, email_subject, u64_dec, unknown_ack};
use remotecmd::runner::CommandInfo;

fn sample() -> CommandInfo {
    CommandInfo::new(
        String::from("ls -la"),
        3,
        String::from("total 0"),
        String::from("oops"),
    )
}

#[test]
fn decimal_rendering() {
    assert_eq!(u64_dec(0), "0");
    assert_eq!(u64_dec(7), "7");
    assert_eq!(u64_dec(10), "10");
    assert_eq!(u64_dec(305), "305");
    assert_eq!(u64_dec(1234567890), "1234567890");
    assert_eq!(u64_dec(u64::MAX), "18446744073709551615");
}

#[test]
fn subject_line() {
    assert_eq!(email_subject(&sample()), "Command \"ls -la\" finished in 3");
}

#[test]
fn body_layout() {
    assert_eq!(email_body(&sample()), "STDOUT:\ntotal 0\n\nSTDERR:\noops");
}

#[test]
fn chat_markdown_report() {
    assert_eq!(
        chat_report(&sample()),
        "Ran command *ls -la* in *3*s\n\n**STANDARD OUT:**\n\ntotal 0\n\n**STANDARD ERROR:**\n\noops"
    );
}

#[test]
fn acknowledgments() {
    assert_eq!(unknown_ack("feed me"), "Unknown command: feed me");
    assert_eq!(done_ack(), "Done!");
}

#[test]
fn error_messages() {
    assert_eq!(
        BackendError::Initialization(String::from("no relay")).describe(),
        "Initialization error: no relay"
    );
    assert_eq!(
        BackendError::Authorization(String::from("bad login")).describe(),
        "Authorization error: bad login"
    );
    assert_eq!(
        BackendError::Server(String::from("timeout")).describe(),
        "Server error: timeout"
    );
    assert_eq!(BackendError::SendFailure.describe(), "Send error");
    assert_eq!(BackendError::ReceiveFailure.describe(), "Receive error");
    assert_eq!(
        BackendError::Unknown(String::from("odd")).describe(),
        "Error: odd"
    );
}
