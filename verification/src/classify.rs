//! Classification of the external runtime's command output.
//!
//! The external tool reports failures only as free text on stderr, so the
//! engine inspects that text for the phrases that mean "the container is
//! already gone" before deciding whether a non-zero exit is a hard error or a
//! successful idempotent no-op.

use vstd::prelude::*;
use vstd::string::StringExecFns;

use crate::text::contains_seq;
use crate::text::str_contains;
use crate::types::YoukiCliError;

verus! {

/// stderr text after a `kill` that means the container was already stopped.
pub open spec fn kill_failure_benign(stderr: Seq<char>) -> bool {
    contains_seq(stderr, "not running"@) || contains_seq(stderr, "no such process"@)
}

/// stderr text after a `delete` or `state` that means the container is gone.
pub open spec fn absence_reported(stderr: Seq<char>) -> bool {
    contains_seq(stderr, "not exist"@) || contains_seq(stderr, "not found"@)
}

/// Classifies the output of `kill <id> <signal>`: an exit failure whose
/// stderr reports the container as already stopped is a successful no-op;
/// any other failure carries the signal and the stderr text.
pub fn classify_kill(success: bool, signal: &str, stderr: &str) -> (r: Result<
    (),
    YoukiCliError,
>)
    ensures
        r is Ok <==> success || kill_failure_benign(stderr@),
        r matches Err(e) ==> (e matches YoukiCliError::CommandFailed { command, message }
            && command@ == "kill "@ + signal@ && message@ == stderr@),
{
    if success {
        return Ok(());
    }
    if str_contains(stderr, "not running") || str_contains(stderr, "no such process") {
        return Ok(());
    }
    Err(
        YoukiCliError::CommandFailed {
            command: "kill ".to_owned().concat(signal),
            message: stderr.to_owned(),
        },
    )
}

/// Classifies the output of `delete [--force] <id>`: an exit failure whose
/// stderr reports the container as nonexistent is a successful no-op; any
/// other failure carries the stderr text.
pub fn classify_delete(success: bool, stderr: &str) -> (r: Result<(), YoukiCliError>)
    ensures
        r is Ok <==> success || absence_reported(stderr@),
        r matches Err(e) ==> (e matches YoukiCliError::CommandFailed { command, message }
            && command@ == "delete"@ && message@ == stderr@),
{
    if success {
        return Ok(());
    }
    if str_contains(stderr, "not exist") || str_contains(stderr, "not found") {
        return Ok(());
    }
    Err(
        YoukiCliError::CommandFailed {
            command: "delete".to_owned(),
            message: stderr.to_owned(),
        },
    )
}

/// Classifies the output of `state <id>`. `Ok` means the state document on
/// stdout is to be decoded; a failure whose stderr reports absence is the
/// typed not-found error; any other failure carries the stderr text.
pub fn classify_state(success: bool, container_id: &str, stderr: &str) -> (r: Result<
    (),
    YoukiCliError,
>)
    ensures
        r is Ok <==> success,
        !success && absence_reported(stderr@) ==> (r matches Err(e) && e matches
            YoukiCliError::ContainerNotFound(id) && id@ == container_id@),
        !success && !absence_reported(stderr@) ==> (r matches Err(e) && e matches
            YoukiCliError::CommandFailed { command, message } && command@ == "state"@
            && message@ == stderr@),
{
    if success {
        return Ok(());
    }
    if str_contains(stderr, "not exist") || str_contains(stderr, "not found") {
        return Err(YoukiCliError::ContainerNotFound(container_id.to_owned()));
    }
    Err(
        YoukiCliError::CommandFailed {
            command: "state".to_owned(),
            message: stderr.to_owned(),
        },
    )
}

/// Classifies the output of a command with no tolerated failures
/// (`create`, `start`): any exit failure carries the subcommand name and the
/// stderr text.
pub fn classify_strict(command: &str, success: bool, stderr: &str) -> (r: Result<
    (),
    YoukiCliError,
>)
    ensures
        r is Ok <==> success,
        r matches Err(e) ==> (e matches YoukiCliError::CommandFailed { command: c, message }
            && c@ == command@ && message@ == stderr@),
{
    if success {
        Ok(())
    } else {
        Err(
            YoukiCliError::CommandFailed {
                command: command.to_owned(),
                message: stderr.to_owned(),
            },
        )
    }
}

} // verus!
