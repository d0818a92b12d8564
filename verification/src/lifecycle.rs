//! Decision logic of the container lifecycle operations.
//!
//! The shell around the library performs the external calls (the runtime
//! binary, the filesystem) and hands their outcomes to these functions, which
//! decide every step: what a stop-wait poll does next, how a status query
//! falls back to the registry, which resource limits a bundle gets, and how a
//! per-container failure degrades inside a listing.

use vstd::prelude::*;
use vstd::string::StringExecFns;

use crate::text::str_eq;
use crate::types::ContainerState;
use crate::types::ContainerStatus;
use crate::types::OrchestrationError;
use crate::types::ResourceRequests;
use crate::types::YoukiCliError;

verus! {

// ---------------------------------------------------------------------------
// The graceful/forceful shutdown state machine
// ---------------------------------------------------------------------------

/// What one poll of the external runtime reported during a stop wait.
#[derive(Debug, Clone)]
pub enum StopEvent {
    /// The runtime reports the container as stopped.
    Stopped,
    /// The runtime reports the container in any non-terminal state.
    Running,
    /// The runtime no longer knows the container: already gone.
    NotFound,
    /// The state query itself failed for another reason.
    QueryFailed(YoukiCliError),
}

/// What the stop sequence does after a poll.
#[derive(Debug, Clone)]
pub enum StopAction {
    /// The container is down or gone: finish with success.
    Finish,
    /// The deadline has passed: send the forceful kill, then finish.
    ForceKill,
    /// Sleep one polling interval and poll again.
    Wait,
    /// Surface the query error and abort the wait.
    Abort(YoukiCliError),
}

/// The stop-wait transition relation.
pub open spec fn spec_stop_step(event: StopEvent, deadline_reached: bool) -> StopAction {
    match event {
        StopEvent::Stopped => StopAction::Finish,
        StopEvent::NotFound => StopAction::Finish,
        StopEvent::Running => if deadline_reached {
            StopAction::ForceKill
        } else {
            StopAction::Wait
        },
        StopEvent::QueryFailed(e) => StopAction::Abort(e),
    }
}

/// One step of the stop wait: a terminal or absent container finishes the
/// sequence (so stopping an already-stopped or already-removed container is a
/// no-op), a still-running container waits until the deadline and is then
/// killed forcefully, and any other query failure aborts.
pub fn stop_step(event: StopEvent, deadline_reached: bool) -> (r: StopAction)
    ensures
        r == spec_stop_step(event, deadline_reached),
        event is NotFound ==> r is Finish,
        event is Stopped ==> r is Finish,
        deadline_reached ==> !(r is Wait),
        r is Abort <==> event is QueryFailed,
{
    match event {
        StopEvent::Stopped => StopAction::Finish,
        StopEvent::NotFound => StopAction::Finish,
        StopEvent::Running => if deadline_reached {
            StopAction::ForceKill
        } else {
            StopAction::Wait
        },
        StopEvent::QueryFailed(e) => StopAction::Abort(e),
    }
}

/// Turns a status string reported by the runtime into a stop-wait event.
pub fn stop_event_from_status(status: &str) -> (e: StopEvent)
    ensures
        status@ == "stopped"@ ==> e is Stopped,
        status@ != "stopped"@ ==> e is Running,
{
    if str_eq(status, "stopped") {
        StopEvent::Stopped
    } else {
        StopEvent::Running
    }
}

/// How many state queries the stop wait performs when the runtime answers
/// with `events` in order and the deadline allows `budget` sleeps.
pub open spec fn spec_stop_polls(events: Seq<StopEvent>, budget: nat) -> nat
    decreases events.len(),
{
    if events.len() == 0 {
        0
    } else {
        match spec_stop_step(events[0], budget == 0) {
            StopAction::Wait => 1 + spec_stop_polls(events.skip(1), (budget - 1) as nat),
            _ => 1,
        }
    }
}

/// The stop sequence never blocks indefinitely: whatever the runtime answers
/// — including a container that stays running forever — a wait whose deadline
/// allows `budget` sleeps performs at most `budget + 1` state queries before
/// it finishes, kills forcefully, or aborts.
pub proof fn lemma_stop_wait_bounded(events: Seq<StopEvent>, budget: nat)
    ensures
        spec_stop_polls(events, budget) <= budget + 1,
    decreases events.len(),
{
    if events.len() > 0 {
        match spec_stop_step(events[0], budget == 0) {
            StopAction::Wait => {
                lemma_stop_wait_bounded(events.skip(1), (budget - 1) as nat);
            },
            _ => {},
        }
    }
}

/// A second stop of the same container never errors: once a stop has run,
/// the runtime reports the container stopped or already gone, and on either
/// event the wait finishes at once instead of aborting, deadline or not.
pub proof fn lemma_second_stop_finishes(deadline_reached: bool)
    ensures
        spec_stop_step(StopEvent::Stopped, deadline_reached) == StopAction::Finish,
        spec_stop_step(StopEvent::NotFound, deadline_reached) == StopAction::Finish,
{
}

// ---------------------------------------------------------------------------
// Status queries
// ---------------------------------------------------------------------------

/// What a status query of the external runtime came to.
#[derive(Debug, Clone)]
pub enum RuntimeStateQuery {
    /// The runtime reported this status string.
    Status(String),
    /// The runtime does not know the container.
    NotFound,
    /// The query failed; the text is the error's rendering.
    Failed(String),
}

/// Resolves a container's status: the runtime's live answer wins; a container
/// the runtime has forgotten falls back to the registry's cached entry; one
/// known to neither is a not-found error; and any other query failure
/// degrades to an "unknown" record carrying the error text rather than
/// failing the call.
pub fn resolve_status(
    container_id: &String,
    query: RuntimeStateQuery,
    cached: Option<&ContainerState>,
) -> (r: Result<ContainerStatus, OrchestrationError>)
    ensures
        query matches RuntimeStateQuery::Status(s) ==> (r matches Ok(st) && st.id@
            == container_id@ && st.state@ == s@ && st.exit_code is None
            && st.error_message is None),
        cached matches Some(c) ==> (query is NotFound ==> (r matches Ok(st) && st.id@
            == container_id@ && st.state@ == c.status@ && st.exit_code is None
            && st.error_message is None)),
        query is NotFound && cached is None ==> (r matches Err(e) && e matches
            OrchestrationError::RuntimeError(m) && m@ == "Container not found: "@
            + container_id@),
        query matches RuntimeStateQuery::Failed(t) ==> (r matches Ok(st) && st.id@
            == container_id@ && st.state@ == "unknown"@ && st.exit_code is None
            && st.error_message == Some(t)),
{
    match query {
        RuntimeStateQuery::Status(s) => Ok(
            ContainerStatus {
                id: container_id.clone(),
                state: s,
                exit_code: None,
                error_message: None,
            },
        ),
        RuntimeStateQuery::NotFound => match cached {
            Some(c) => Ok(
                ContainerStatus {
                    id: container_id.clone(),
                    state: c.status.clone(),
                    exit_code: None,
                    error_message: None,
                },
            ),
            None => Err(
                OrchestrationError::RuntimeError(
                    "Container not found: ".to_owned().concat(container_id.as_str()),
                ),
            ),
        },
        RuntimeStateQuery::Failed(t) => Ok(
            ContainerStatus {
                id: container_id.clone(),
                state: "unknown".to_owned(),
                exit_code: None,
                error_message: Some(t),
            },
        ),
    }
}

/// The listing policy: one container's failed query degrades to an "unknown"
/// record carrying the error text, so a listing always yields a record for
/// every requested identifier.
pub fn status_or_degraded(container_id: String, outcome: Result<
    ContainerStatus,
    OrchestrationError,
>) -> (r: ContainerStatus)
    ensures
        outcome matches Ok(st) ==> r == st,
        outcome matches Err(e) ==> (e matches OrchestrationError::RuntimeError(m) ==> (r.id@
            == container_id@ && r.state@ == "unknown"@ && r.exit_code is None
            && r.error_message == Some(m))),
{
    match outcome {
        Ok(st) => st,
        Err(OrchestrationError::RuntimeError(m)) => ContainerStatus {
            id: container_id,
            state: "unknown".to_owned(),
            exit_code: None,
            error_message: Some(m),
        },
    }
}

// ---------------------------------------------------------------------------
// On-disk layout
// ---------------------------------------------------------------------------

/// The bundle directory of a container: under the bundle root, namespaced by
/// node, then by container identifier.
pub fn bundle_path_for(bundle_root: &str, node_id: &str, container_id: &str) -> (r: String)
    ensures
        r@ == bundle_root@ + "/"@ + node_id@ + "/"@ + container_id@,
{
    let r = bundle_root.to_owned().concat("/").concat(node_id).concat("/").concat(container_id);
    assert(r@ =~= bundle_root@ + "/"@ + node_id@ + "/"@ + container_id@);
    r
}

// ---------------------------------------------------------------------------
// Bundle resource limits
// ---------------------------------------------------------------------------

/// The resource limits the bundle builder is configured with.
#[derive(Debug, Clone, PartialEq, Eq)]
pub struct BundleLimits {
    pub cpu_millicores: Option<u64>,
    pub memory_mb: Option<u64>,
}

/// A resource request is applied to the bundle only when it is strictly
/// positive; a zero request leaves that limit off.
pub fn plan_bundle_limits(requests: &ResourceRequests) -> (r: BundleLimits)
    ensures
        requests.cpu_millicores > 0 ==> r.cpu_millicores == Some(requests.cpu_millicores),
        requests.cpu_millicores == 0 ==> r.cpu_millicores is None,
        requests.memory_mb > 0 ==> r.memory_mb == Some(requests.memory_mb),
        requests.memory_mb == 0 ==> r.memory_mb is None,
{
    BundleLimits {
        cpu_millicores: if requests.cpu_millicores > 0 {
            Some(requests.cpu_millicores)
        } else {
            None
        },
        memory_mb: if requests.memory_mb > 0 {
            Some(requests.memory_mb)
        } else {
            None
        },
    }
}

} // verus!
