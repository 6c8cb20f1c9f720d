//! Log entries: their level, their message and the line that stands for
//! them in the log file.

use crate::outcome::{meets_expectation, ExecutionOutcome, OutcomeView};
use crate::text::{decimal, decimal_text};
use vstd::prelude::*;

verus! {

/// A log entry: its level, and with it the message.
#[derive(Clone, Debug, PartialEq, Eq)]
pub enum LogLevel {
    /// An execution that met the expected status.
    Info(String),
    /// A transport failure or an unexpected status.
    Error(String),
}

/// What a log entry holds.
pub enum LogLevelView {
    Info(Seq<char>),
    Error(Seq<char>),
}

impl LogLevelView {
    /// The name of the level as it stands in the log file.
    pub open spec fn label(self) -> Seq<char> {
        match self {
            LogLevelView::Info(_) => "INFO"@,
            LogLevelView::Error(_) => "ERROR"@,
        }
    }

    /// The message of the entry.
    pub open spec fn message(self) -> Seq<char> {
        match self {
            LogLevelView::Info(message) => message,
            LogLevelView::Error(message) => message,
        }
    }
}

impl View for LogLevel {
    type V = LogLevelView;

    open spec fn view(&self) -> LogLevelView {
        match self {
            LogLevel::Info(message) => LogLevelView::Info(message@),
            LogLevel::Error(message) => LogLevelView::Error(message@),
        }
    }
}

impl LogLevel {
    /// The name of the level: `INFO` or `ERROR`.
    pub fn to_string(&self) -> (label: String)
        ensures
            label@ == self@.label(),
    {
        match self {
            LogLevel::Info(_) => String::from_str("INFO"),
            LogLevel::Error(_) => String::from_str("ERROR"),
        }
    }

    /// The message of the entry.
    pub fn message(&self) -> (message: &String)
        ensures
            message@ == self@.message(),
    {
        match self {
            LogLevel::Info(message) => message,
            LogLevel::Error(message) => message,
        }
    }
}

/// The line of the log file for `entry`, written at the time that
/// `timestamp` names: the timestamp and the level in square brackets, then
/// the message, then a line feed.
pub open spec fn line_text(timestamp: Seq<char>, entry: LogLevelView) -> Seq<char> {
    "["@ + timestamp + " "@ + entry.label() + "] "@ + entry.message() + "\n"@
}

/// The canonical reason phrase of the status code `status`, as
/// `reqwest::StatusCode::canonical_reason` gives it. `None` where the code
/// has no such phrase, and where `status` is no status code at all.
pub uninterp spec fn reason_phrase(status: u16) -> Option<Seq<char>>;

/// A status as it is shown: the code, a blank and the reason `phrase`, in
/// whose place `<unknown status code>` stands where there is none.
pub open spec fn status_words(status: u16, phrase: Option<Seq<char>>) -> Seq<char> {
    decimal(status as nat) + " "@ + match phrase {
        Some(words) => words,
        None => "<unknown status code>"@,
    }
}

/// The message logged for a response with the expected status.
pub open spec fn expected_message(status: u16, phrase: Option<Seq<char>>) -> Seq<char> {
    "Got Response (as expected): "@ + status_words(status, phrase)
}

/// The message logged for a response with another status than expected.
pub open spec fn unexpected_message(
    expected: u16,
    status: u16,
    phrase: Option<Seq<char>>,
    body: Seq<char>,
) -> Seq<char> {
    "Got Unexpected Code (Expected: "@ + decimal(expected as nat) + "): "@ + status_words(
        status,
        phrase,
    ) + ", text: "@ + body
}

/// The message logged for an execution that met a transport failure.
pub open spec fn transport_message(description: Seq<char>) -> Seq<char> {
    "Sending request failed: "@ + description
}

/// The log entry for `outcome`, where `phrase` is the reason phrase of its
/// status: at level `INFO` for a response with the status `expected`, at
/// level `ERROR` for every other outcome.
pub open spec fn entry_for(
    outcome: OutcomeView,
    expected: u16,
    phrase: Option<Seq<char>>,
) -> LogLevelView {
    match outcome {
        OutcomeView::Responded(status, body) => if status == expected {
            LogLevelView::Info(expected_message(status, phrase))
        } else {
            LogLevelView::Error(unexpected_message(expected, status, phrase, body))
        },
        OutcomeView::Failed(description) => LogLevelView::Error(transport_message(description)),
    }
}

/// The reason phrase that belongs to `outcome`: that of its status, and
/// none for a transport failure.
pub open spec fn phrase_of(outcome: OutcomeView) -> Option<Seq<char>> {
    match outcome {
        OutcomeView::Responded(status, _) => reason_phrase(status),
        OutcomeView::Failed(_) => None,
    }
}

/// The text of `phrase`, if there is one.
pub open spec fn phrase_text(phrase: Option<String>) -> Option<Seq<char>> {
    match phrase {
        Some(words) => Some(words@),
        None => None,
    }
}

/// The entries logged for `outcomes`, one for each and in their order.
pub open spec fn entries_for(outcomes: Seq<OutcomeView>, expected: u16) -> Seq<LogLevelView> {
    outcomes.map_values(|outcome: OutcomeView| entry_for(outcome, expected, phrase_of(outcome)))
}

/// The number of `entries` at level `INFO`.
pub open spec fn info_count(entries: Seq<LogLevelView>) -> nat
    decreases entries.len(),
{
    if entries.len() == 0 {
        0
    } else {
        info_count(entries.drop_last()) + if entries.last() is Info {
            1nat
        } else {
            0nat
        }
    }
}

/// The level of an entry does not depend on the reason phrase: an entry is
/// at level `INFO` exactly for a response with the expected status.
pub proof fn lemma_info_only_for_expected_status(
    outcome: OutcomeView,
    expected: u16,
    phrase: Option<Seq<char>>,
)
    ensures
        entry_for(outcome, expected, phrase) is Info <==> meets_expectation(outcome, expected),
        entry_for(outcome, expected, phrase) is Error <==> !meets_expectation(outcome, expected),
{
}

/// Writes the line of the log file for `entry`.
pub fn log_line(entry: &LogLevel, timestamp: &str) -> (line: String)
    ensures
        line@ == line_text(timestamp@, entry@),
{
    let mut line = String::from_str("[");
    line.append(timestamp);
    line.append(" ");
    line.append(entry.to_string().as_str());
    line.append("] ");
    line.append(entry.message().as_str());
    line.append("\n");
    line
}

/// Calls `reqwest::StatusCode::from_u16` and, on the status code it yields,
/// `canonical_reason`, whose result the contract names
/// `reason_phrase(status)`; `None` too where `status` is no status code.
#[verifier::external_body]
fn canonical_reason(status: u16) -> (phrase: Option<String>)
    ensures
        phrase_text(phrase) == reason_phrase(status),
{
    match reqwest::StatusCode::from_u16(status) {
        Ok(code) => match code.canonical_reason() {
            Some(words) => Some(words.to_owned()),
            None => None,
        },
        Err(_) => None,
    }
}

/// Writes `status` as it is shown, with the reason `phrase` given.
pub fn describe_status(status: u16, phrase: &Option<String>) -> (text: String)
    ensures
        text@ == status_words(status, phrase_text(*phrase)),
{
    let mut text = decimal_text(status as u128);
    text.append(" ");
    match phrase {
        Some(words) => text.append(words.as_str()),
        None => text.append("<unknown status code>"),
    }
    text
}

/// Writes `status` as it is shown: the code with its canonical reason
/// phrase.
pub fn status_text(status: u16) -> (text: String)
    ensures
        text@ == status_words(status, reason_phrase(status)),
{
    let phrase = canonical_reason(status);
    describe_status(status, &phrase)
}

/// The log entry for the outcome of one execution, with the reason
/// `phrase` of its status given.
pub fn entry_with_phrase(
    outcome: &ExecutionOutcome,
    expected: u16,
    phrase: &Option<String>,
) -> (entry: LogLevel)
    ensures
        entry@ == entry_for(outcome@, expected, phrase_text(*phrase)),
{
    match outcome {
        ExecutionOutcome::Responded(status, body) => {
            if *status == expected {
                let mut message = String::from_str("Got Response (as expected): ");
                message.append(describe_status(*status, phrase).as_str());
                LogLevel::Info(message)
            } else {
                let mut message = String::from_str("Got Unexpected Code (Expected: ");
                message.append(decimal_text(expected as u128).as_str());
                message.append("): ");
                message.append(describe_status(*status, phrase).as_str());
                message.append(", text: ");
                message.append(body.as_str());
                LogLevel::Error(message)
            }
        },
        ExecutionOutcome::Failed(description) => {
            let mut message = String::from_str("Sending request failed: ");
            message.append(description.as_str());
            LogLevel::Error(message)
        },
    }
}

/// The log entry for the outcome of one execution, which shows a status
/// with its canonical reason phrase.
pub fn log_entry(outcome: &ExecutionOutcome, expected: u16) -> (entry: LogLevel)
    ensures
        entry@ == entry_for(outcome@, expected, phrase_of(outcome@)),
        entry is Info <==> meets_expectation(outcome@, expected),
{
    let phrase = match outcome {
        ExecutionOutcome::Responded(status, _) => canonical_reason(*status),
        ExecutionOutcome::Failed(_) => None,
    };
    entry_with_phrase(outcome, expected, &phrase)
}

} // verus!
