//! Remote command control: run a shell command, report its output over a
//! messaging channel, and obey short control replies (rerun / done / cat).
//!
//! This crate holds the transport-neutral logic: the data model, the reply
//! classifier, the message encoder and renderers, the mailbox-polling and
//! chat-inbox models, and the control loop's decision rules. Network and
//! process I/O live outside, in the surrounding application.

pub mod backend;
pub mod chat;
pub mod classifier;
pub mod config;
pub mod control;
pub mod encoder;
pub mod mailbox;
pub mod render;
pub mod runner;
pub mod text;

use vstd::prelude::*;

verus! {

} // verus!
