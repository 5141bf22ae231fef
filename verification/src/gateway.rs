//! The routing gateway's decisions: one invocation loads the engine
//! configuration, creates an engine instance, submits a route query and then
//! a matrix query, and concatenates the two structured results. The outside
//! steps themselves are the caller's; this module decides, from the current
//! state and each step's outcome, what comes next, and every transition is
//! pinned by `step_post`.

use vstd::prelude::*;
use vstd::string::StringExecFns;

verus! {

/// The stage of a gateway invocation at which a failure can occur.
#[derive(Clone, Copy, Debug, PartialEq, Eq, Structural)]
pub enum Stage {
    ConfigLoad,
    EngineInit,
    RouteSubmission,
    MatrixSubmission,
}

/// The engine's reply to a submission, as the gateway reads it: structured
/// JSON text, or a shape the gateway does not handle.
pub enum EngineReply {
    Json(String),
    Unsupported,
}

/// Where one gateway invocation stands: which outside step it waits for, the
/// route result it carries between the two submissions, and the two terminal
/// outcomes.
pub enum GatewayState {
    NeedConfig,
    NeedEngine,
    NeedRoute,
    NeedMatrix(String),
    Done(String),
    Failed(Stage),
}

/// What the surrounding loop reports back: the pending outside step
/// succeeded (with the engine's reply, for a submission), or it failed
/// outright.
pub enum GatewayEvent {
    ConfigLoaded,
    EngineReady,
    RouteReply(EngineReply),
    MatrixReply(EngineReply),
    StepFailed,
}

/// The descriptive cause attached to an upstream failure at each stage.
pub open spec fn stage_message(st: Stage) -> Seq<char> {
    match st {
        Stage::ConfigLoad => "could not load the routing engine configuration"@,
        Stage::EngineInit => "could not create a routing engine instance"@,
        Stage::RouteSubmission => "route submission failed"@,
        Stage::MatrixSubmission => "matrix submission failed"@,
    }
}

/// The descriptive cause for a failed stage, exactly `stage_message`.
pub fn stage_cause(st: Stage) -> (r: String)
    ensures
        r@ == stage_message(st),
{
    match st {
        Stage::ConfigLoad => String::from_str("could not load the routing engine configuration"),
        Stage::EngineInit => String::from_str("could not create a routing engine instance"),
        Stage::RouteSubmission => String::from_str("route submission failed"),
        Stage::MatrixSubmission => String::from_str("matrix submission failed"),
    }
}

/// The composite payload: the two structured results as one two-element
/// JSON-like sequence.
pub open spec fn compose_text(route: Seq<char>, matrix: Seq<char>) -> Seq<char> {
    "["@ + route + ","@ + matrix + "]"@
}

/// Concatenates the route and matrix results, exactly `compose_text`.
pub fn compose_results(route: &str, matrix: &str) -> (r: String)
    ensures
        r@ == compose_text(route@, matrix@),
{
    let mut r = String::from_str("[");
    r.append(route);
    r.append(",");
    r.append(matrix);
    r.append("]");
    proof {
        assert(r@ =~= compose_text(route@, matrix@));
    }
    r
}

/// The full transition relation of one gateway invocation. A waiting state
/// advances on the outcome it waits for and fails its own stage on anything
/// else — a failed outside step, a misdelivered outcome, or a submission
/// reply in a shape other than JSON. The terminal states never move.
pub open spec fn step_post(s: GatewayState, e: GatewayEvent, r: GatewayState) -> bool {
    match s {
        GatewayState::NeedConfig => match e {
            GatewayEvent::ConfigLoaded => r is NeedEngine,
            _ => r == GatewayState::Failed(Stage::ConfigLoad),
        },
        GatewayState::NeedEngine => match e {
            GatewayEvent::EngineReady => r is NeedRoute,
            _ => r == GatewayState::Failed(Stage::EngineInit),
        },
        GatewayState::NeedRoute => match e {
            GatewayEvent::RouteReply(EngineReply::Json(d)) => r is NeedMatrix
                && r->NeedMatrix_0@ == d@,
            _ => r == GatewayState::Failed(Stage::RouteSubmission),
        },
        GatewayState::NeedMatrix(route) => match e {
            GatewayEvent::MatrixReply(EngineReply::Json(m)) => r is Done && r->Done_0@
                == compose_text(route@, m@),
            _ => r == GatewayState::Failed(Stage::MatrixSubmission),
        },
        GatewayState::Done(d) => r is Done && r->Done_0@ == d@,
        GatewayState::Failed(st) => r == GatewayState::Failed(st),
    }
}

/// One decision step of the gateway. The surrounding loop performs the
/// pending outside step, reports its outcome as the event, and hands the
/// state back here until it reaches `Done` or `Failed`.
pub fn gateway_step(s: GatewayState, e: GatewayEvent) -> (r: GatewayState)
    ensures
        step_post(s, e, r),
{
    match s {
        GatewayState::NeedConfig => match e {
            GatewayEvent::ConfigLoaded => GatewayState::NeedEngine,
            _ => GatewayState::Failed(Stage::ConfigLoad),
        },
        GatewayState::NeedEngine => match e {
            GatewayEvent::EngineReady => GatewayState::NeedRoute,
            _ => GatewayState::Failed(Stage::EngineInit),
        },
        GatewayState::NeedRoute => match e {
            GatewayEvent::RouteReply(reply) => match reply {
                EngineReply::Json(d) => GatewayState::NeedMatrix(d),
                EngineReply::Unsupported => GatewayState::Failed(Stage::RouteSubmission),
            },
            _ => GatewayState::Failed(Stage::RouteSubmission),
        },
        GatewayState::NeedMatrix(route) => match e {
            GatewayEvent::MatrixReply(reply) => match reply {
                EngineReply::Json(m) => GatewayState::Done(
                    compose_results(route.as_str(), m.as_str()),
                ),
                EngineReply::Unsupported => GatewayState::Failed(Stage::MatrixSubmission),
            },
            _ => GatewayState::Failed(Stage::MatrixSubmission),
        },
        GatewayState::Done(d) => GatewayState::Done(d),
        GatewayState::Failed(st) => GatewayState::Failed(st),
    }
}

} // verus!
