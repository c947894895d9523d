//! What a widget's command comes to: the decisions that running it takes
//! at each step, from what the program saw of the command to what it does
//! next and what the widget shows.
use vstd::prelude::*;

use crate::output::{format_output, spec_format_output};
use crate::text::{decimal, push_decimal};

verus! {

/// What the program saw of a widget's command at one step.
#[derive(Debug)]
pub enum CommandEvent {
    /// The widget's command line is empty.
    NoCommand,
    /// The program `program` could not be started, with the error `error`.
    SpawnFailed { program: String, error: String },
    /// The widgets were dropped while the command ran.
    Cancelled,
    /// Asking whether the command had ended failed, with the error `error`.
    PollFailed { error: String },
    /// The command ended, but its exit status could not be read.
    StatusFailed { error: String },
    /// The command ended: whether it succeeded, and what it wrote.
    Exited { success: bool, stdout: Vec<u8>, stderr: Vec<u8> },
    /// The command still runs, `elapsed_ms` milliseconds after it started.
    Running { elapsed_ms: u64 },
}

/// What to do next with a widget's command.
#[derive(Debug)]
pub enum CommandAction {
    /// Show `text`: nothing runs (any more).
    Show { text: String },
    /// Stop the command and its process group, wait for it, drop what it
    /// wrote, and show `text`.
    Stop { text: String },
    /// Kill the command and show `text`.
    Kill { text: String },
    /// Look again after a short sleep.
    Poll,
}

/// What to do next, with the text as characters.
pub enum ActionView {
    Show(Seq<char>),
    Stop(Seq<char>),
    Kill(Seq<char>),
    Poll,
}

impl View for CommandAction {
    type V = ActionView;

    open spec fn view(&self) -> ActionView {
        match self {
            CommandAction::Show { text } => ActionView::Show(text@),
            CommandAction::Stop { text } => ActionView::Stop(text@),
            CommandAction::Kill { text } => ActionView::Kill(text@),
            CommandAction::Poll => ActionView::Poll,
        }
    }
}

/// Whether a command that has run `elapsed_ms` milliseconds has used up a
/// timeout of `timeout_secs` seconds.
pub open spec fn timed_out(elapsed_ms: u64, timeout_secs: u64) -> bool {
    elapsed_ms >= timeout_secs * 1000
}

/// What to do after `event`, for a command allowed `timeout_secs` seconds.
pub open spec fn spec_command_step(event: CommandEvent, timeout_secs: u64) -> ActionView {
    match event {
        CommandEvent::NoCommand => ActionView::Show("[error] missing command"@),
        CommandEvent::SpawnFailed { program, error } => ActionView::Show(
            "[error] failed to start "@ + program@ + ": "@ + error@,
        ),
        CommandEvent::Cancelled => ActionView::Stop("[cancelled]"@),
        CommandEvent::PollFailed { error } => ActionView::Kill(
            "[error] failed to wait for command: "@ + error@,
        ),
        CommandEvent::StatusFailed { error } => ActionView::Show(
            "[error] failed to wait for command: "@ + error@,
        ),
        CommandEvent::Exited { success, stdout, stderr } => ActionView::Show(
            spec_format_output(success, stdout@, stderr@),
        ),
        CommandEvent::Running { elapsed_ms } => if timed_out(elapsed_ms, timeout_secs) {
            ActionView::Stop("[timeout] command exceeded "@ + decimal(timeout_secs as nat) + "s"@)
        } else {
            ActionView::Poll
        },
    }
}

/// What to do after `event`, for a command allowed `timeout_secs` seconds:
/// report an empty command line or a failed start; stop a cancelled
/// command, or one that has used up its time; kill it when it cannot be
/// polled; show what a finished command wrote; else poll again.
pub fn command_step(event: CommandEvent, timeout_secs: u64) -> (a: CommandAction)
    ensures
        a@ == spec_command_step(event, timeout_secs),
{
    match event {
        CommandEvent::NoCommand => CommandAction::Show {
            text: String::from_str("[error] missing command"),
        },
        CommandEvent::SpawnFailed { program, error } => {
            let mut text = String::from_str("[error] failed to start ");
            text.append(program.as_str());
            text.append(": ");
            text.append(error.as_str());
            CommandAction::Show { text }
        },
        CommandEvent::Cancelled => CommandAction::Stop { text: String::from_str("[cancelled]") },
        CommandEvent::PollFailed { error } => {
            let mut text = String::from_str("[error] failed to wait for command: ");
            text.append(error.as_str());
            CommandAction::Kill { text }
        },
        CommandEvent::StatusFailed { error } => {
            let mut text = String::from_str("[error] failed to wait for command: ");
            text.append(error.as_str());
            CommandAction::Show { text }
        },
        CommandEvent::Exited { success, stdout, stderr } => CommandAction::Show {
            text: format_output(success, stdout, stderr),
        },
        CommandEvent::Running { elapsed_ms } => {
            if elapsed_ms / 1000 >= timeout_secs {
                let mut text = String::from_str("[timeout] command exceeded ");
                push_decimal(&mut text, timeout_secs);
                text.append("s");
                CommandAction::Stop { text }
            } else {
                CommandAction::Poll
            }
        },
    }
}

} // verus!
