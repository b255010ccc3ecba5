use remotecmd::backend::BackendCommand;
use remotecmd::classifier::{classify_chat_reply, classify_email_reply};

#[test]
fn email_single_rerun() {
    assert!(matches!(classify_email_reply("rerun"), BackendCommand::Rerun));
}

#[test]
fn email_single_done() {
    assert!(matches!(classify_email_reply("done"), BackendCommand::Done));
}

#[test]
fn email_single_cat() {
    assert!(matches!(classify_email_reply("cat"), BackendCommand::Cat));
}

#[test]
fn email_case_insensitive() {
    assert!(matches!(classify_email_reply("ReRun"), BackendCommand::Rerun));
    assert!(matches!(classify_email_reply("DONE"), BackendCommand::Done));
    assert!(matches!(classify_email_reply("Cat"), BackendCommand::Cat));
}

#[test]
fn email_unknown_preserved_verbatim() {
    match classify_email_reply("hello world") {
        BackendCommand::Unknown(text) => assert_eq!(text, "hello world"),
        _ => panic!("expected an unknown command"),
    }
}

#[test]
fn email_quoted_lines_dropped() {
    let body = "rerun\n> the original report\n> more quoted text";
    assert!(matches!(classify_email_reply(body), BackendCommand::Rerun));
}

#[test]
fn email_empty_lines_dropped() {
    let body = "\n\ndone\n\n";
    assert!(matches!(classify_email_reply(body), BackendCommand::Done));
}

#[test]
fn email_attribution_line_dropped() {
    let body = "cat\nOn Monday at 10:00, Alice <alice@example.com> wrote:\n> earlier text";
    assert!(matches!(classify_email_reply(body), BackendCommand::Cat));
}

#[test]
fn attribution_needs_both_gaps() {
    // " at " stands too early and nothing separates it from the start, so
    // this is not an attribution line: it survives and is unknown.
    match classify_email_reply("On at wrote:") {
        BackendCommand::Unknown(text) => assert_eq!(text, "On at wrote:"),
        _ => panic!("expected an unknown command"),
    }
}

#[test]
fn email_only_attribution_is_malformed() {
    // The single line is dropped as an attribution, leaving no line: the
    // whole raw text comes back as the unknown command.
    let body = "On Mon at 5 pm, Bob wrote:";
    match classify_email_reply(body) {
        BackendCommand::Unknown(text) => assert_eq!(text, body),
        _ => panic!("expected an unknown command"),
    }
}

#[test]
fn email_two_lines_is_malformed() {
    let body = "rerun\ndone";
    match classify_email_reply(body) {
        BackendCommand::Unknown(text) => assert_eq!(text, body),
        _ => panic!("expected an unknown command"),
    }
}

#[test]
fn email_classification_idempotent_on_extracted_line() {
    // A reply with quoting artifacts classifies to the extracted line;
    // classifying that line again gives the same command.
    let body = "feed the cat\n> original report";
    let first = classify_email_reply(body);
    match &first {
        BackendCommand::Unknown(text) => {
            assert_eq!(text, "feed the cat");
            match classify_email_reply(text) {
                BackendCommand::Unknown(again) => assert_eq!(&again, text),
                _ => panic!("expected an unknown command"),
            }
        }
        _ => panic!("expected an unknown command"),
    }

    let quoted_keyword = "rerun\n> old text";
    assert!(matches!(classify_email_reply(quoted_keyword), BackendCommand::Rerun));
    assert!(matches!(classify_email_reply("rerun"), BackendCommand::Rerun));
}

#[test]
fn chat_keywords() {
    assert!(matches!(classify_chat_reply("rerun"), BackendCommand::Rerun));
    assert!(matches!(classify_chat_reply("done"), BackendCommand::Done));
    assert!(matches!(classify_chat_reply("cat"), BackendCommand::Cat));
    assert!(matches!(classify_chat_reply("CAT"), BackendCommand::Cat));
}

#[test]
fn chat_unknown_preserved() {
    match classify_chat_reply("run it again please") {
        BackendCommand::Unknown(text) => assert_eq!(text, "run it again please"),
        _ => panic!("expected an unknown command"),
    }
}

#[test]
fn chat_no_stripping() {
    // Chat replies are matched directly: a newline makes it unknown.
    match classify_chat_reply("rerun\n") {
        BackendCommand::Unknown(text) => assert_eq!(text, "rerun\n"),
        _ => panic!("expected an unknown command"),
    }
}
