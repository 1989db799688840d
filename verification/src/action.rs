//! What a run asks of its surroundings.
use vstd::prelude::*;

use crate::text;
use crate::text::{joined, trimmed};

verus! {

/// One thing to do outside. What comes of it is answered with the output, or with a message
/// that says why it failed; an answer to `Exit` has no effect.
#[derive(Debug)]
pub enum Action {
    /// Find the root of the workspace.
    Locate,
    /// Run `git` with these words and keep what it prints.
    Capture(Vec<String>),
    /// Run `git` with these words and let it print.
    Run(Vec<String>),
    /// Run `git` with these words and keep it silent.
    Quiet(Vec<String>),
    /// Set every manifest of the workspace to this version.
    SetVersion(String),
    /// End, with success or without.
    Exit(bool),
}

/// What an [`Action`] says.
pub enum ActionView {
    Locate,
    Capture(Seq<Seq<char>>),
    Run(Seq<Seq<char>>),
    Quiet(Seq<Seq<char>>),
    SetVersion(Seq<char>),
    Exit(bool),
}

impl View for Action {
    type V = ActionView;

    open spec fn view(&self) -> ActionView {
        match self {
            Action::Locate => ActionView::Locate,
            Action::Capture(args) => ActionView::Capture(text::texts(args@)),
            Action::Run(args) => ActionView::Run(text::texts(args@)),
            Action::Quiet(args) => ActionView::Quiet(text::texts(args@)),
            Action::SetVersion(version) => ActionView::SetVersion(version@),
            Action::Exit(success) => ActionView::Exit(*success),
        }
    }
}

/// What came of an action: its output, or why it failed.
pub type ReplyView = Result<Seq<char>, Seq<char>>;

/// What a reply says.
pub open spec fn reply_text(reply: Result<String, String>) -> ReplyView {
    match reply {
        Ok(output) => Ok(output@),
        Err(message) => Err(message@),
    }
}

/// The message for a `git` that could not be started.
pub open spec fn not_started(args: Seq<Seq<char>>, error: Seq<char>) -> Seq<char> {
    "failed to run git "@ + text::join(args, " "@) + ": "@ + error
}

/// The answer that a finished `git` gives: what it printed if it succeeded, and else a message
/// with what it complained of.
pub open spec fn git_answer(
    args: Seq<Seq<char>>,
    success: bool,
    stdout: Seq<char>,
    stderr: Seq<char>,
) -> ReplyView {
    if success {
        Ok(stdout)
    } else {
        Err("git "@ + text::join(args, " "@) + " failed: "@ + text::trim(stderr))
    }
}

/// The message for a `git` that could not be started.
pub fn git_not_started(args: &[String], error: &str) -> (r: String)
    ensures
        r@ == not_started(text::texts(args@), error@),
{
    let mut r = "failed to run git ".to_owned();
    r.append(joined(args, " ").as_str());
    r.append(": ");
    r.append(error);
    r
}

/// What a finished `git` command answers.
pub fn git_output(args: &[String], success: bool, stdout: &str, stderr: &str) -> (r: Result<
    String,
    String,
>)
    ensures
        reply_text(r) == git_answer(text::texts(args@), success, stdout@, stderr@),
{
    if success {
        return Ok(stdout.to_owned());
    }
    let mut message = "git ".to_owned();
    message.append(joined(args, " ").as_str());
    message.append(" failed: ");
    message.append(trimmed(stderr));
    Err(message)
}

} // verus!
