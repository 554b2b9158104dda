//! The refresher's decisions: a state machine from state and event to next
//! state and action.
//!
//! The surrounding task performs the actions (sleeping, fetching from a file
//! or an HTTP endpoint, publishing to the snapshot holder) and feeds the
//! outcomes back as events; every decision between them is taken here. A
//! fetched rule set is published only when every rule is valid; on any
//! failure the previous snapshot is retained.

use vstd::prelude::*;

use crate::configs::{spec_configs_valid, validate_configs, RateLimitConfigs};

verus! {

/// Where rule sets come from: a local file path or an HTTP(S) URL.
#[derive(Clone, Debug)]
pub enum ConfigSource {
    File(String),
    Http(String),
}

/// The refresher's state between events.
#[derive(Clone, Copy, Debug, PartialEq, Eq, Structural)]
pub enum RefresherState {
    /// Waiting for the next tick of the refresh cadence.
    Idle,
    /// A fetch is outstanding.
    Fetching,
    /// Shut down; no further fetch or publication happens.
    Stopped,
}

/// What happened since the last decision.
pub enum RefresherEvent {
    /// The refresh cadence elapsed.
    Tick,
    /// The source yielded a rule set.
    Fetched(RateLimitConfigs),
    /// The source could not be read or parsed.
    FetchFailed,
    /// The process is shutting down.
    Cancelled,
}

/// What the surrounding task must do next.
pub enum RefresherAction {
    /// Wait for the next event; the current snapshot is retained.
    Retain,
    /// Read and parse the rule set at this file path.
    FetchFile(String),
    /// Fetch and parse the rule set at this URL.
    FetchHttp(String),
    /// Replace the published snapshot with this one.
    Publish(RateLimitConfigs),
}

/// Decides the refresher's next state and action.
///
/// A tick while idle starts a fetch against the configured source; a fetched
/// rule set is published exactly when all of its rules are valid, and
/// retained otherwise, as is any failed fetch; cancellation stops the
/// refresher for good, and a stopped refresher reacts to nothing.
pub fn refresher_step(state: RefresherState, source: &ConfigSource, event: RefresherEvent) -> (r: (
    RefresherState,
    RefresherAction,
))
    ensures
        state == RefresherState::Stopped ==> r.0 == RefresherState::Stopped && r.1 is Retain,
        event is Cancelled ==> r.0 == RefresherState::Stopped && r.1 is Retain,
        state == RefresherState::Idle && event is Tick ==> r.0 == RefresherState::Fetching && (
        match *source {
            ConfigSource::File(ref path) => r.1 matches RefresherAction::FetchFile(ref p)
                && p@ == path@,
            ConfigSource::Http(ref url) => r.1 matches RefresherAction::FetchHttp(ref u) && u@
                == url@,
        }),
        state == RefresherState::Fetching ==> (match event {
            RefresherEvent::Fetched(configs) => r.0 == RefresherState::Idle && (
            if spec_configs_valid(configs@) {
                r.1 matches RefresherAction::Publish(p) && p == configs
            } else {
                r.1 is Retain
            }),
            RefresherEvent::FetchFailed => r.0 == RefresherState::Idle && r.1 is Retain,
            RefresherEvent::Tick => r.0 == RefresherState::Fetching && r.1 is Retain,
            RefresherEvent::Cancelled => true,
        }),
        state == RefresherState::Idle && (event is Fetched || event is FetchFailed) ==> r.0
            == RefresherState::Idle && r.1 is Retain,
{
    match event {
        RefresherEvent::Cancelled => (RefresherState::Stopped, RefresherAction::Retain),
        RefresherEvent::Tick => {
            match state {
                RefresherState::Idle => {
                    let action = match source {
                        ConfigSource::File(path) => RefresherAction::FetchFile(path.clone()),
                        ConfigSource::Http(url) => RefresherAction::FetchHttp(url.clone()),
                    };
                    (RefresherState::Fetching, action)
                },
                RefresherState::Fetching => (RefresherState::Fetching, RefresherAction::Retain),
                RefresherState::Stopped => (RefresherState::Stopped, RefresherAction::Retain),
            }
        },
        RefresherEvent::Fetched(configs) => {
            match state {
                RefresherState::Fetching => {
                    if validate_configs(&configs) {
                        (RefresherState::Idle, RefresherAction::Publish(configs))
                    } else {
                        (RefresherState::Idle, RefresherAction::Retain)
                    }
                },
                RefresherState::Idle => (RefresherState::Idle, RefresherAction::Retain),
                RefresherState::Stopped => (RefresherState::Stopped, RefresherAction::Retain),
            }
        },
        RefresherEvent::FetchFailed => {
            match state {
                RefresherState::Stopped => (RefresherState::Stopped, RefresherAction::Retain),
                _ => (RefresherState::Idle, RefresherAction::Retain),
            }
        },
    }
}

} // verus!
