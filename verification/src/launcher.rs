//! The session launcher: what the reply to a terminal-launch request means,
//! and what the user is shown before and after the hand-off.

use crate::text::Text;
use vstd::prelude::*;

verus! {

/// What came back from the terminal-launch endpoint.
#[derive(Debug, PartialEq, Eq)]
pub enum TerminalReply {
    /// The call itself failed.
    Failed { reason: String },
    /// A response came, with this status code; `body` is its text where the
    /// text could be read.
    Status { code: u16, body: Option<String> },
}

/// Why no session was opened.
#[derive(Debug, PartialEq, Eq)]
pub enum LaunchError {
    /// The service could not be reached.
    Unreachable { reason: String },
    /// The service answered with a status other than success; `body` is what
    /// it said.
    Rejected { body: String },
}

/// How a launch ended: with a session opened, or with the reason why none
/// was.
pub type LaunchOutcome = Result<(), LaunchError>;

/// The mathematical value of a [`LaunchError`].
pub enum LaunchErrorModel {
    Unreachable { reason: Text },
    Rejected { body: Text },
}

impl View for LaunchError {
    type V = LaunchErrorModel;

    open spec fn view(&self) -> LaunchErrorModel {
        match self {
            LaunchError::Unreachable { reason } => LaunchErrorModel::Unreachable {
                reason: reason@,
            },
            LaunchError::Rejected { body } => LaunchErrorModel::Rejected { body: body@ },
        }
    }
}

/// The status codes of success: the two hundreds.
pub open spec fn success_status(code: u16) -> bool {
    200 <= code < 300
}

/// What stands for the body of a response whose text could not be read.
pub open spec fn unreadable_body() -> Text {
    "Unknown error"@
}

/// The outcome of a launch, by the reply: success on a status of success; a
/// rejection that carries the response body as it came on any other status;
/// an unreachable service where the call failed.
pub open spec fn launch_outcome(reply: TerminalReply) -> Result<(), LaunchErrorModel> {
    match reply {
        TerminalReply::Failed { reason } => Err(LaunchErrorModel::Unreachable { reason: reason@ }),
        TerminalReply::Status { code, body } => if success_status(code) {
            Ok(())
        } else {
            Err(
                LaunchErrorModel::Rejected {
                    body: match body {
                        Some(text) => text@,
                        None => unreadable_body(),
                    },
                },
            )
        },
    }
}

/// What the user reads while the launch request is under way.
pub open spec fn banner_text(identifier: Text) -> Text {
    "Connecting to "@ + identifier + "..."@
}

/// What the user reads once the launch request has been answered.
pub open spec fn notice_text(identifier: Text, outcome: Result<(), LaunchErrorModel>) -> Text {
    match outcome {
        Ok(()) => "Terminal session opened successfully for: "@ + identifier,
        Err(LaunchErrorModel::Rejected { body }) => "Error opening terminal session:\n"@ + body,
        Err(LaunchErrorModel::Unreachable { reason }) => "Request failed: "@ + reason,
    }
}

/// What asks the user to acknowledge the notice.
pub open spec fn prompt_text() -> Text {
    "Press any key to return..."@
}

/// Whether a status code reports success.
pub fn is_success(code: u16) -> (r: bool)
    ensures
        r == success_status(code),
{
    200 <= code && code < 300
}

/// The outcome of a launch, by the reply to its request.
pub fn outcome(reply: TerminalReply) -> (r: LaunchOutcome)
    ensures
        match launch_outcome(reply) {
            Ok(()) => r is Ok,
            Err(error) => r matches Err(e) && e@ == error,
        },
{
    match reply {
        TerminalReply::Failed { reason } => Err(LaunchError::Unreachable { reason }),
        TerminalReply::Status { code, body } => {
            if is_success(code) {
                Ok(())
            } else {
                match body {
                    Some(text) => Err(LaunchError::Rejected { body: text }),
                    None => Err(LaunchError::Rejected { body: "Unknown error".to_owned() }),
                }
            }
        },
    }
}

/// The mathematical value of an outcome.
pub open spec fn outcome_model(outcome: LaunchOutcome) -> Result<(), LaunchErrorModel> {
    match outcome {
        Ok(()) => Ok(()),
        Err(e) => Err(e@),
    }
}

/// The line that announces the launch.
pub fn banner(identifier: &str) -> (s: String)
    ensures
        s@ == banner_text(identifier@),
{
    let mut s = "Connecting to ".to_owned();
    s.append(identifier);
    s.append("...");
    s
}

/// The notice that reports the outcome of the launch to the user. A
/// rejection shows the response body as it came.
pub fn notice(identifier: &str, outcome: &LaunchOutcome) -> (s: String)
    ensures
        s@ == notice_text(identifier@, outcome_model(*outcome)),
{
    match outcome {
        Ok(()) => {
            let mut s = "Terminal session opened successfully for: ".to_owned();
            s.append(identifier);
            s
        },
        Err(LaunchError::Rejected { body }) => {
            let mut s = "Error opening terminal session:\n".to_owned();
            s.append(body.as_str());
            s
        },
        Err(LaunchError::Unreachable { reason }) => {
            let mut s = "Request failed: ".to_owned();
            s.append(reason.as_str());
            s
        },
    }
}

/// The line that asks for the acknowledgement.
pub fn prompt() -> (s: String)
    ensures
        s@ == prompt_text(),
{
    "Press any key to return...".to_owned()
}

} // verus!
