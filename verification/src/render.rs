//! Renderers for the outbound messages: the email subject and body built
//! from a command result, the chat markdown report, and the fixed
//! acknowledgment texts.

use vstd::prelude::*;

use crate::runner::CommandInfo;

verus! {

broadcast use vstd::string::group_string_axioms;

/// The character for one decimal digit.
pub open spec fn dec_digit(d: int) -> char {
    if d == 0 {
        '0'
    } else if d == 1 {
        '1'
    } else if d == 2 {
        '2'
    } else if d == 3 {
        '3'
    } else if d == 4 {
        '4'
    } else if d == 5 {
        '5'
    } else if d == 6 {
        '6'
    } else if d == 7 {
        '7'
    } else if d == 8 {
        '8'
    } else {
        '9'
    }
}

/// The decimal representation of `n`, most significant digit first, without
/// leading zeros (`0` is rendered as `"0"`).
pub open spec fn dec_seq(n: nat) -> Seq<char>
    decreases n,
{
    if n < 10 {
        seq![dec_digit(n as int)]
    } else {
        dec_seq(n / 10).push(dec_digit((n % 10) as int))
    }
}

/// One decimal digit as a string.
fn digit_str(d: u64) -> (r: &'static str)
    requires
        d < 10,
    ensures
        r@ == seq![dec_digit(d as int)],
{
    proof {
        reveal_strlit("0");
        reveal_strlit("1");
        reveal_strlit("2");
        reveal_strlit("3");
        reveal_strlit("4");
        reveal_strlit("5");
        reveal_strlit("6");
        reveal_strlit("7");
        reveal_strlit("8");
        reveal_strlit("9");
    }
    let r = if d == 0 {
        "0"
    } else if d == 1 {
        "1"
    } else if d == 2 {
        "2"
    } else if d == 3 {
        "3"
    } else if d == 4 {
        "4"
    } else if d == 5 {
        "5"
    } else if d == 6 {
        "6"
    } else if d == 7 {
        "7"
    } else if d == 8 {
        "8"
    } else {
        "9"
    };
    proof {
        assert(r@ =~= seq![dec_digit(d as int)]);
    }
    r
}

/// Renders `n` in decimal.
pub fn u64_dec(n: u64) -> (r: String)
    ensures
        r@ == dec_seq(n as nat),
    decreases n,
{
    if n < 10 {
        String::from_str(digit_str(n))
    } else {
        let mut s = u64_dec(n / 10);
        s.append(digit_str(n % 10));
        proof {
            assert(dec_seq((n / 10) as nat) + seq![dec_digit((n % 10) as int)] =~= dec_seq(
                (n / 10) as nat,
            ).push(dec_digit((n % 10) as int)));
        }
        s
    }
}

/// The subject line reporting a finished command: the command text and the
/// elapsed whole seconds.
pub open spec fn subject_text(info: CommandInfo) -> Seq<char> {
    "Command \""@ + info.command@ + "\" finished in "@ + dec_seq(info.time as nat)
}

/// The report body: the captured standard output, then the captured standard
/// error.
pub open spec fn body_text(info: CommandInfo) -> Seq<char> {
    "STDOUT:\n"@ + info.stdout@ + "\n\nSTDERR:\n"@ + info.stderr@
}

/// The chat markdown report of a finished command.
pub open spec fn chat_report_text(info: CommandInfo) -> Seq<char> {
    "Ran command *"@ + info.command@ + "* in *"@ + dec_seq(info.time as nat)
        + "*s\n\n**STANDARD OUT:**\n\n"@ + info.stdout@ + "\n\n**STANDARD ERROR:**\n\n"@
        + info.stderr@
}

/// The acknowledgment quoting an unrecognized reply.
pub open spec fn unknown_ack_text(text: Seq<char>) -> Seq<char> {
    "Unknown command: "@ + text
}

/// Renders the email subject for a command result.
pub fn email_subject(info: &CommandInfo) -> (r: String)
    ensures
        r@ == subject_text(*info),
{
    let mut s = String::from_str("Command \"");
    s.append(info.command.as_str());
    s.append("\" finished in ");
    let secs = u64_dec(info.time);
    s.append(secs.as_str());
    s
}

/// Renders the email body for a command result.
pub fn email_body(info: &CommandInfo) -> (r: String)
    ensures
        r@ == body_text(*info),
{
    let mut s = String::from_str("STDOUT:\n");
    s.append(info.stdout.as_str());
    s.append("\n\nSTDERR:\n");
    s.append(info.stderr.as_str());
    s
}

/// Renders the chat markdown report for a command result.
pub fn chat_report(info: &CommandInfo) -> (r: String)
    ensures
        r@ == chat_report_text(*info),
{
    let mut s = String::from_str("Ran command *");
    s.append(info.command.as_str());
    s.append("* in *");
    let secs = u64_dec(info.time);
    s.append(secs.as_str());
    s.append("*s\n\n**STANDARD OUT:**\n\n");
    s.append(info.stdout.as_str());
    s.append("\n\n**STANDARD ERROR:**\n\n");
    s.append(info.stderr.as_str());
    s
}

/// Renders the acknowledgment for an unrecognized reply.
pub fn unknown_ack(text: &str) -> (r: String)
    ensures
        r@ == unknown_ack_text(text@),
{
    let mut s = String::from_str("Unknown command: ");
    s.append(text);
    s
}

/// The final acknowledgment sent on a `done` reply.
pub fn done_ack() -> (r: String)
    ensures
        r@ == "Done!"@,
{
    String::from_str("Done!")
}

} // verus!
