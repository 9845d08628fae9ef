use vstd::prelude::*;

use crate::config::{mode_named, McpMode};

verus! {

/// A front end that runs as one independently supervised unit.
#[derive(PartialEq, Eq, Structural, Clone, Copy, Debug)]
pub enum Unit {
    /// The REST listener.
    Rest,
    /// The tool-invocation front end over HTTP.
    McpHttp,
    /// The tool-invocation front end over standard input and output.
    McpStdio,
}

/// Which units a mode starts.
#[derive(PartialEq, Eq, Structural, Clone, Copy, Debug)]
pub struct LaunchPlan {
    pub rest: bool,
    pub mcp_http: bool,
    pub mcp_stdio: bool,
}

/// The units each mode starts.
pub open spec fn plan_of(mode: McpMode) -> LaunchPlan {
    match mode {
        McpMode::Stdio => LaunchPlan { rest: false, mcp_http: false, mcp_stdio: true },
        McpMode::Http => LaunchPlan { rest: false, mcp_http: true, mcp_stdio: false },
        McpMode::Both => LaunchPlan { rest: true, mcp_http: true, mcp_stdio: false },
        McpMode::RestOnly => LaunchPlan { rest: true, mcp_http: false, mcp_stdio: false },
    }
}

/// Whether `plan` starts `unit`.
pub open spec fn starts(plan: LaunchPlan, unit: Unit) -> bool {
    match unit {
        Unit::Rest => plan.rest,
        Unit::McpHttp => plan.mcp_http,
        Unit::McpStdio => plan.mcp_stdio,
    }
}

/// The units to start for `mode`.
pub fn launch_plan(mode: McpMode) -> (r: LaunchPlan)
    ensures
        r == plan_of(mode),
{
    match mode {
        McpMode::Stdio => LaunchPlan { rest: false, mcp_http: false, mcp_stdio: true },
        McpMode::Http => LaunchPlan { rest: false, mcp_http: true, mcp_stdio: false },
        McpMode::Both => LaunchPlan { rest: true, mcp_http: true, mcp_stdio: false },
        McpMode::RestOnly => LaunchPlan { rest: true, mcp_http: false, mcp_stdio: false },
    }
}

impl LaunchPlan {
    /// Whether this plan starts `unit`.
    pub fn includes(&self, unit: Unit) -> (r: bool)
        ensures
            r == starts(*self, unit),
    {
        match unit {
            Unit::Rest => self.rest,
            Unit::McpHttp => self.mcp_http,
            Unit::McpStdio => self.mcp_stdio,
        }
    }
}

/// The REST-only selectors start no tool-invocation listener, and a selector
/// that names no mode starts what `both` starts.
pub proof fn lemma_mode_selection(s: Seq<char>)
    ensures
        s == "rest-only"@ || s == "rest_only"@ ==> {
            &&& !plan_of(mode_named(s)).mcp_http
            &&& !plan_of(mode_named(s)).mcp_stdio
        },
        s != "stdio"@ && s != "http"@ && s != "rest-only"@ && s != "rest_only"@ ==> plan_of(
            mode_named(s),
        ) == plan_of(mode_named("both"@)),
{
    reveal_strlit("stdio");
    reveal_strlit("http");
    reveal_strlit("both");
    reveal_strlit("rest-only");
    reveal_strlit("rest_only");
    assert("stdio"@.len() == 5 && "http"@.len() == 4 && "both"@.len() == 4);
    assert("rest-only"@.len() == 9 && "rest_only"@.len() == 9);
    assert("http"@[0] != "both"@[0]);
}

/// How a unit ended.
pub enum UnitExit {
    Completed,
    Failed(String),
}

/// The run's result once a unit has ended that way.
pub open spec fn exit_result(exit: UnitExit) -> Result<(), String> {
    match exit {
        UnitExit::Completed => Ok(()),
        UnitExit::Failed(e) => Err(e),
    }
}

/// Supervises the units of one plan: the first of them to end, whether it
/// completed or failed, ends the run with its result.
pub struct Supervisor {
    pub plan: LaunchPlan,
    /// The run's result, once it has ended.
    pub outcome: Option<Result<(), String>>,
}

impl Supervisor {
    /// A supervisor of `plan` whose units are all running.
    pub fn new(plan: LaunchPlan) -> (r: Supervisor)
        ensures
            r.plan == plan,
            r.outcome.is_none(),
    {
        Supervisor { plan, outcome: None }
    }

    /// Records that `unit` ended; returns whether the run is over. Only the
    /// first end of a unit of the plan counts.
    pub fn unit_ended(&mut self, unit: Unit, exit: UnitExit) -> (finished: bool)
        ensures
            final(self).plan == old(self).plan,
            old(self).outcome.is_none() && starts(old(self).plan, unit) ==> final(self).outcome
                == Some(exit_result(exit)),
            old(self).outcome.is_some() || !starts(old(self).plan, unit) ==> final(self).outcome
                == old(self).outcome,
            finished == final(self).outcome.is_some(),
    {
        if self.outcome.is_none() && self.plan.includes(unit) {
            let result = match exit {
                UnitExit::Completed => Ok(()),
                UnitExit::Failed(e) => Err(e),
            };
            self.outcome = Some(result);
        }
        self.outcome.is_some()
    }

    /// Whether the run is over.
    pub fn is_finished(&self) -> (r: bool)
        ensures
            r == self.outcome.is_some(),
    {
        self.outcome.is_some()
    }
}

/// What the accept loop of the network listener observed.
pub enum ListenerEvent {
    /// A connection was accepted.
    Accepted,
    /// Accepting failed with this cause.
    AcceptFailed(String),
    /// The operator asked the process to stop.
    Interrupted,
}

/// What the accept loop does next.
pub enum ListenerAction {
    /// Serve the accepted connection as a new session, and keep accepting.
    Serve,
    /// Stop accepting; the loop ends successfully.
    Stop,
    /// The loop ends with this error.
    Fail(String),
}

/// The accept loop's decision on one event.
pub fn on_listener_event(event: ListenerEvent) -> (r: ListenerAction)
    ensures
        match event {
            ListenerEvent::Accepted => r == ListenerAction::Serve,
            ListenerEvent::AcceptFailed(e) => r == ListenerAction::Fail(e),
            ListenerEvent::Interrupted => r == ListenerAction::Stop,
        },
{
    match event {
        ListenerEvent::Accepted => ListenerAction::Serve,
        ListenerEvent::AcceptFailed(e) => ListenerAction::Fail(e),
        ListenerEvent::Interrupted => ListenerAction::Stop,
    }
}

} // verus!
