//! The monitor of one transfer: it waits for the transfer process to end and
//! says what the transfer came to.
//!
//! A monitor polls its process and hands each poll to [`monitor_poll`].
//! Progress goes to whoever shows it; only the terminal outcome becomes a
//! message on the result channel.

use crate::backup_result::{
    outcome_view, BackupError, BackupSuccess, ErrorKind, Outcome, OutcomeView,
};
use crate::orchestrator::{ChannelMessage, Event, EventView};
use crate::text::joined;
use crate::utils::{clock, clock_string, elapsed_text, get_elapsed_time};
use vstd::prelude::*;
use vstd::string::*;

verus! {

/// The label of the transfer to the destination shown as `name`.
pub open spec fn transfer_label_text(name: Seq<char>) -> Seq<char> {
    "Backup to destination "@ + name
}

/// The label of the transfer to the destination shown as `name`.
pub fn transfer_label(name: &str) -> (label: String)
    ensures
        label@ == transfer_label_text(name@),
{
    joined("Backup to destination ", name)
}

/// What a poll of the transfer process found.
#[derive(Clone, Copy, Debug, PartialEq, Eq, Structural)]
pub enum Poll {
    /// The process has not ended.
    Running,
    /// The process ended, with success or without.
    Exited { success: bool },
    /// The state of the process could not be had.
    Unknown,
}

/// What a monitor does after a poll.
#[derive(Debug)]
pub enum MonitorStep {
    /// Show `progress`, pause for `pause_seconds` and poll again.
    Wait { progress: String, pause_seconds: u64 },
    /// Poll again at once.
    Retry,
    /// Read what the process wrote to its standard error and hand it to
    /// [`monitor_failure`].
    ReadDiagnostics,
    /// Send the outcome of the transfer on the result channel and end.
    Publish { transfer: usize, outcome: Outcome },
}

/// Mathematical content of a [`MonitorStep`].
pub enum MonitorStepView {
    Wait { progress: Seq<char>, pause_seconds: u64 },
    Retry,
    ReadDiagnostics,
    Publish { transfer: usize, outcome: OutcomeView },
}

/// The text that reports the success of the transfer `label` after
/// `seconds`.
pub open spec fn success_text(label: Seq<char>, seconds: nat) -> Seq<char> {
    label + " completed successfully in "@ + clock(seconds)
}

/// The text that shows for how long the transfer `label` has been running.
pub open spec fn progress_text(label: Seq<char>, seconds: nat) -> Seq<char> {
    elapsed_text("\r"@ + label + " running time"@, seconds)
}

/// The text that reports a failed transfer of which nothing else is known.
pub open spec fn failure_text(label: Seq<char>) -> Seq<char> {
    label + " backup error"@
}

/// What the monitor of transfer `transfer`, labelled `label`, does after a
/// poll made `seconds` after the transfer began.
pub open spec fn monitor_step(
    label: Seq<char>,
    transfer: usize,
    seconds: u64,
    poll: Poll,
) -> MonitorStepView {
    match poll {
        Poll::Running => MonitorStepView::Wait {
            progress: progress_text(label, seconds as nat),
            pause_seconds: 1,
        },
        Poll::Unknown => MonitorStepView::Retry,
        Poll::Exited { success } => if success {
            MonitorStepView::Publish {
                transfer,
                outcome: OutcomeView::Success { message: success_text(label, seconds as nat) },
            }
        } else {
            MonitorStepView::ReadDiagnostics
        },
    }
}

/// The outcome of a transfer that ended without success: the diagnostic text
/// that it wrote, or a general text when that could not be read.
pub open spec fn failure_outcome(label: Seq<char>, diagnostics: Option<Seq<char>>) -> OutcomeView {
    OutcomeView::Error {
        kind: ErrorKind::Runtime,
        message: match diagnostics {
            Some(text) => text,
            None => failure_text(label),
        },
    }
}

impl View for MonitorStep {
    type V = MonitorStepView;

    open spec fn view(&self) -> MonitorStepView {
        match *self {
            MonitorStep::Wait { progress, pause_seconds } => MonitorStepView::Wait {
                progress: progress@,
                pause_seconds,
            },
            MonitorStep::Retry => MonitorStepView::Retry,
            MonitorStep::ReadDiagnostics => MonitorStepView::ReadDiagnostics,
            MonitorStep::Publish { transfer, outcome } => MonitorStepView::Publish {
                transfer,
                outcome: outcome_view(outcome),
            },
        }
    }
}

/// Decides what the monitor of transfer `transfer`, labelled `label`, does
/// after a poll made `elapsed_seconds` after the transfer began.
pub fn monitor_poll(
    label: &str,
    transfer: usize,
    elapsed_seconds: u64,
    poll: Poll,
) -> (step: MonitorStep)
    ensures
        step@ == monitor_step(label@, transfer, elapsed_seconds, poll),
{
    match poll {
        Poll::Running => {
            let mut description = joined("\r", label);
            description.append(" running time");
            MonitorStep::Wait {
                progress: get_elapsed_time(elapsed_seconds, description.as_str()),
                pause_seconds: 1,
            }
        },
        Poll::Unknown => MonitorStep::Retry,
        Poll::Exited { success } => {
            if success {
                let mut text = joined(label, " completed successfully in ");
                text.append(clock_string(elapsed_seconds).as_str());
                MonitorStep::Publish { transfer, outcome: Ok(BackupSuccess::new(text.as_str())) }
            } else {
                MonitorStep::ReadDiagnostics
            }
        },
    }
}

/// The message of the monitor of transfer `transfer`, labelled `label`, for
/// a transfer that ended without success.  `diagnostics` is what the process
/// wrote to its standard error, if that could be read.
pub fn monitor_failure(
    label: &str,
    transfer: usize,
    diagnostics: Option<String>,
) -> (message: ChannelMessage)
    ensures
        (Event::Message(message))@ == (EventView::Outcome {
            transfer,
            outcome: failure_outcome(
                label@,
                match diagnostics {
                    Some(text) => Some(text@),
                    None => None,
                },
            ),
        }),
{
    let err = match diagnostics {
        Some(text) => BackupError::new(text.as_str()),
        None => BackupError::new(joined(label, " backup error").as_str()),
    };
    ChannelMessage::Outcome { transfer, outcome: Err(err) }
}

} // verus!
