//! Starting the gateway and serving the built web UI: where things are
//! looked for, the startup sequence, and the addresses and messages.
use vstd::prelude::*;
use crate::text::{decimal, decimal_string, is_ascii_digit, lemma_decimal_reads_back, numeral_value, push_str};

verus! {

/// The compose file of the gateway, relative to its directory.
pub const COMPOSE_FILE: &'static str = "infrastructure/compose/docker-compose.prod.yml";

/// The environment variable that names the gateway directory.
pub const GATEWAY_DIR_ENV: &'static str = "AI_WORKSTATION_DIR";

/// The gateway directory below the home directory when none is given.
pub const DEFAULT_GATEWAY_SUBDIR: &'static str = "ai-workstation";

/// How many health probes follow `docker compose up` at most.
pub const HEALTH_PROBES: u32 = 60;

/// The pause after a failed health probe, in seconds.
pub const PROBE_INTERVAL_SECS: u64 = 2;

/// The port the UI is served on when none is given.
pub const DEFAULT_PORT: u16 = 8080;

/// The places below the home directory where the gateway directory is looked
/// for, in order.
pub open spec fn home_candidates_spec() -> Seq<Seq<char>> {
    seq!["Projects/ai-workstation"@, "ai-workstation"@]
}

/// The places below the home directory where the gateway directory is looked
/// for, in order.
pub fn gateway_home_candidates() -> (v: Vec<String>)
    ensures
        v@.map_values(|s: String| s@) == home_candidates_spec(),
{
    let mut v: Vec<String> = Vec::new();
    v.push(String::from_str("Projects/ai-workstation"));
    v.push(String::from_str("ai-workstation"));
    assert(v@.map_values(|s: String| s@) =~= home_candidates_spec());
    v
}

/// Whether `i` is the first of `found` that holds.
pub open spec fn first_found_at(found: Seq<bool>, i: int) -> bool {
    &&& 0 <= i < found.len()
    &&& found[i]
    &&& forall|j: int| 0 <= j < i ==> !found[j]
}

/// Among places looked at in order, where `found` tells which of them hold
/// what is looked for, the first that does, if any.
pub fn first_found(found: &Vec<bool>) -> (r: Option<usize>)
    ensures
        match r {
            Some(i) => first_found_at(found@, i as int),
            None => forall|j: int| 0 <= j < found@.len() ==> !found@[j],
        },
{
    let mut i: usize = 0;
    while i < found.len()
        invariant
            i <= found.len(),
            forall|j: int| 0 <= j < i ==> !found@[j],
        decreases found.len() - i,
    {
        if found[i] {
            return Some(i);
        }
        i = i + 1;
    }
    None
}

/// The message when no built UI was found.
pub open spec fn dist_missing_message() -> Seq<char> {
    "dist/ directory not found. Run `pnpm build` first."@
}

/// Among the candidate directories of the built UI, where `found` tells
/// which of them hold an `index.html`, the first that does, else the error
/// that asks for a build.
pub fn select_dist_dir(found: &Vec<bool>) -> (r: Result<usize, String>)
    ensures
        match r {
            Ok(i) => first_found_at(found@, i as int),
            Err(m) => m@ == dist_missing_message() && forall|j: int| 0 <= j < found@.len() ==> !found@[j],
        },
{
    match first_found(found) {
        Some(i) => Ok(i),
        None => Err(String::from_str("dist/ directory not found. Run `pnpm build` first.")),
    }
}

/// The gateway directory to start from: the one given, else the default one
/// below the home directory, else the working directory.
pub fn resolve_start_dir(gateway_dir: Option<String>, home_default: Option<String>) -> (r: String)
    ensures
        r@ == match gateway_dir {
            Some(d) => d@,
            None => match home_default {
                Some(h) => h@,
                None => "."@,
            },
        },
{
    match gateway_dir {
        Some(d) => d,
        None => match home_default {
            Some(h) => h,
            None => String::from_str("."),
        },
    }
}

/// The port to serve the UI on: the one given, else 8080.
pub fn resolve_port(port: Option<u16>) -> (r: u16)
    ensures
        r == match port {
            Some(p) => p,
            None => DEFAULT_PORT,
        },
{
    match port {
        Some(p) => p,
        None => DEFAULT_PORT,
    }
}

/// The address the UI server binds: all interfaces, on `port`.
pub fn bind_address(port: u16) -> (r: String)
    ensures
        r@ == "0.0.0.0:"@ + decimal(port as nat),
        r@.take(8) == "0.0.0.0:"@,
        r@.len() > 8,
        forall|i: int| 8 <= i < r@.len() ==> is_ascii_digit(#[trigger] r@[i]),
        numeral_value(r@.skip(8)) == port,
{
    let mut r = String::from_str("0.0.0.0:");
    let d = decimal_string(port as u64);
    push_str(&mut r, d.as_str());
    proof {
        reveal_strlit("0.0.0.0:");
        lemma_decimal_reads_back(port as nat);
        assert(r@.take(8) =~= "0.0.0.0:"@);
        assert(r@.skip(8) =~= d@);
        assert forall|i: int| 8 <= i < r@.len() implies is_ascii_digit(#[trigger] r@[i]) by {
            assert(r@[i] == d@[i - 8]);
        }
    }
    r
}

/// The URL under which the served UI is reached.
pub fn served_url(port: u16) -> (r: String)
    ensures
        r@ == "http://localhost:"@ + decimal(port as nat),
        r@.take(17) == "http://localhost:"@,
        r@.len() > 17,
        forall|i: int| 17 <= i < r@.len() ==> is_ascii_digit(#[trigger] r@[i]),
        numeral_value(r@.skip(17)) == port,
{
    let mut r = String::from_str("http://localhost:");
    let d = decimal_string(port as u64);
    push_str(&mut r, d.as_str());
    proof {
        reveal_strlit("http://localhost:");
        lemma_decimal_reads_back(port as nat);
        assert(r@.take(17) =~= "http://localhost:"@);
        assert(r@.skip(17) =~= d@);
        assert forall|i: int| 17 <= i < r@.len() implies is_ascii_digit(#[trigger] r@[i]) by {
            assert(r@[i] == d@[i - 17]);
        }
    }
    r
}

/// The message when the UI server cannot bind `port`.
pub fn bind_failure(port: u16, error: &str) -> (r: String)
    ensures
        r@ == "Cannot bind to port "@ + decimal(port as nat) + ": "@ + error@,
{
    let mut r = String::from_str("Cannot bind to port ");
    let d = decimal_string(port as u64);
    push_str(&mut r, d.as_str());
    push_str(&mut r, ": ");
    push_str(&mut r, error);
    r
}

/// Where the gateway startup stands.
#[derive(Debug, Clone, Copy, PartialEq, Eq, Structural)]
pub enum StartPhase {
    /// Waiting to learn whether the compose file exists.
    CheckCompose,
    /// Waiting for the probe of a gateway that may already run.
    FirstProbe,
    /// Waiting for `docker compose up` to exit.
    ComposeUp,
    /// Waiting for a probe after the gateway was started.
    Probe,
    /// Waiting for the pause after a failed probe.
    Pause,
    /// Finished.
    Done,
}

/// The state of a gateway startup: its phase and the probes made since
/// `docker compose up` succeeded.
#[derive(Debug, Clone, Copy, PartialEq, Eq, Structural)]
pub struct StartState {
    pub phase: StartPhase,
    pub probes: u32,
}

/// What the outside world reported to the startup.
#[derive(Debug)]
pub enum StartEvent {
    /// Whether the compose file exists, and where it was looked for.
    ComposeFile { found: bool, location: String },
    /// Whether the gateway answered its health check with success.
    Probed(bool),
    /// How `docker compose up` ended: whether it succeeded, or why it
    /// could not run.
    ComposeExited(Result<bool, String>),
    /// The pause is over.
    Paused,
}

/// What the startup asks of the outside world next.
#[derive(Debug)]
pub enum StartAction {
    /// Look whether the compose file exists.
    CheckComposeFile,
    /// Ask the gateway's health endpoint.
    ProbeHealth,
    /// Run `docker compose -f <compose file> up -d` in the gateway directory.
    RunComposeUp,
    /// Wait this many seconds.
    Pause(u64),
    /// The startup ends with this result.
    Finish(Result<(), String>),
}

/// Whether a startup state is one that the steps can reach.
pub open spec fn start_state_valid(s: StartState) -> bool {
    &&& s.phase == StartPhase::Probe ==> s.probes < HEALTH_PROBES
    &&& s.phase == StartPhase::Pause ==> 1 <= s.probes <= HEALTH_PROBES
    &&& (s.phase != StartPhase::Probe && s.phase != StartPhase::Pause) ==> s.probes == 0
}

/// Whether `e` is the report that state `s` waits for.
pub open spec fn start_event_fits(s: StartState, e: StartEvent) -> bool {
    match s.phase {
        StartPhase::CheckCompose => e is ComposeFile,
        StartPhase::FirstProbe | StartPhase::Probe => e is Probed,
        StartPhase::ComposeUp => e is ComposeExited,
        StartPhase::Pause => e is Paused,
        StartPhase::Done => false,
    }
}

/// An upper bound on the steps left before the startup finishes.
pub open spec fn start_steps_left(s: StartState) -> nat {
    match s.phase {
        StartPhase::CheckCompose => (2 * HEALTH_PROBES + 3) as nat,
        StartPhase::FirstProbe => (2 * HEALTH_PROBES + 2) as nat,
        StartPhase::ComposeUp => (2 * HEALTH_PROBES + 1) as nat,
        StartPhase::Probe => (2 * (HEALTH_PROBES - s.probes)) as nat,
        StartPhase::Pause => (2 * (HEALTH_PROBES - s.probes) + 1) as nat,
        StartPhase::Done => 0,
    }
}

/// The message when the compose file is missing.
pub open spec fn compose_missing_message(location: Seq<char>) -> Seq<char> {
    "docker-compose.prod.yml not found at "@ + location + ". Clone ai-workstation first."@
}

/// The startup's first state and first action.
pub fn start_gateway_begin() -> (r: (StartState, StartAction))
    ensures
        r.0 == (StartState { phase: StartPhase::CheckCompose, probes: 0 }),
        r.1 is CheckComposeFile,
{
    (StartState { phase: StartPhase::CheckCompose, probes: 0 }, StartAction::CheckComposeFile)
}

/// Whether `event` is the report that `state` waits for.
pub fn start_expects(state: StartState, event: &StartEvent) -> (b: bool)
    ensures
        b == start_event_fits(state, *event),
{
    match state.phase {
        StartPhase::CheckCompose => matches!(event, StartEvent::ComposeFile { .. }),
        StartPhase::FirstProbe | StartPhase::Probe => matches!(event, StartEvent::Probed(_)),
        StartPhase::ComposeUp => matches!(event, StartEvent::ComposeExited(_)),
        StartPhase::Pause => matches!(event, StartEvent::Paused),
        StartPhase::Done => false,
    }
}

/// The next state and action of a gateway startup after `event`.
///
/// The startup checks for the compose file, probes the gateway and returns
/// at once if it is healthy, else runs `docker compose up` and then probes
/// up to sixty times with a pause of two seconds after each failed probe.
/// Every step brings the startup closer to its end, and it ends with success
/// exactly when a probe found the gateway healthy.
pub fn start_gateway_step(state: StartState, event: StartEvent) -> (r: (StartState, StartAction))
    requires
        start_state_valid(state),
        start_event_fits(state, event),
    ensures
        start_state_valid(r.0),
        start_steps_left(r.0) < start_steps_left(state),
        (r.0.phase == StartPhase::Done) <==> (r.1 is Finish),
        (r.1 matches StartAction::Finish(Ok(_))) <==> (event matches StartEvent::Probed(true)),
        match (state.phase, event) {
            (StartPhase::CheckCompose, StartEvent::ComposeFile { found, location }) => if found {
                r.0.phase == StartPhase::FirstProbe && r.1 is ProbeHealth
            } else {
                r.1 matches StartAction::Finish(Err(m)) && m@ == compose_missing_message(location@)
            },
            (StartPhase::FirstProbe, StartEvent::Probed(healthy)) => !healthy ==> (
                r.0.phase == StartPhase::ComposeUp && r.1 is RunComposeUp),
            (StartPhase::ComposeUp, StartEvent::ComposeExited(outcome)) => match outcome {
                Ok(true) => r.0 == (StartState { phase: StartPhase::Probe, probes: 0 }) && r.1 is ProbeHealth,
                Ok(false) => r.1 matches StartAction::Finish(Err(m)) && m@ == "docker compose up failed"@,
                Err(e) => r.1 matches StartAction::Finish(Err(m)) && m@ == "Failed to start gateway: "@ + e@,
            },
            (StartPhase::Probe, StartEvent::Probed(healthy)) => !healthy ==> (
                r.0 == (StartState { phase: StartPhase::Pause, probes: (state.probes + 1) as u32 })
                && (r.1 matches StartAction::Pause(secs) && secs == PROBE_INTERVAL_SECS)),
            (StartPhase::Pause, StartEvent::Paused) => if state.probes < HEALTH_PROBES {
                r.0 == (StartState { phase: StartPhase::Probe, probes: state.probes }) && r.1 is ProbeHealth
            } else {
                &&& r.1 matches StartAction::Finish(Err(m))
                &&& m@ == "Gateway did not become healthy within 120 seconds"@
            },
            _ => true,
        },
{
    let done = StartState { phase: StartPhase::Done, probes: 0 };
    match event {
        StartEvent::ComposeFile { found, location } => {
            if found {
                (StartState { phase: StartPhase::FirstProbe, probes: 0 }, StartAction::ProbeHealth)
            } else {
                let mut m = String::from_str("docker-compose.prod.yml not found at ");
                push_str(&mut m, location.as_str());
                push_str(&mut m, ". Clone ai-workstation first.");
                (done, StartAction::Finish(Err(m)))
            }
        },
        StartEvent::Probed(healthy) => {
            if healthy {
                (done, StartAction::Finish(Ok(())))
            } else if state.phase == StartPhase::FirstProbe {
                (StartState { phase: StartPhase::ComposeUp, probes: 0 }, StartAction::RunComposeUp)
            } else {
                (
                    StartState { phase: StartPhase::Pause, probes: state.probes + 1 },
                    StartAction::Pause(PROBE_INTERVAL_SECS),
                )
            }
        },
        StartEvent::ComposeExited(outcome) => match outcome {
            Ok(true) => (StartState { phase: StartPhase::Probe, probes: 0 }, StartAction::ProbeHealth),
            Ok(false) => (done, StartAction::Finish(Err(String::from_str("docker compose up failed")))),
            Err(e) => {
                let mut m = String::from_str("Failed to start gateway: ");
                push_str(&mut m, e.as_str());
                (done, StartAction::Finish(Err(m)))
            },
        },
        StartEvent::Paused => {
            if state.probes < HEALTH_PROBES {
                (StartState { phase: StartPhase::Probe, probes: state.probes }, StartAction::ProbeHealth)
            } else {
                (
                    done,
                    StartAction::Finish(
                        Err(String::from_str("Gateway did not become healthy within 120 seconds")),
                    ),
                )
            }
        },
    }
}

} // verus!
