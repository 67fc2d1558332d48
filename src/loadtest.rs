use vstd::prelude::*;

verus! {

/// A permission of the load-test service.
#[derive(Clone, Copy, Debug, PartialEq, Eq, Structural)]
pub enum Scope {
    ReadLoadTests,
    WriteLoadTests,
}

pub open spec fn scope_text(s: Scope) -> Seq<char> {
    match s {
        Scope::ReadLoadTests => "read:loadtests"@,
        Scope::WriteLoadTests => "write:loadtests"@,
    }
}

impl Scope {
    /// The scope as it appears in a token.
    pub fn as_str(&self) -> (r: &'static str)
        ensures
            r@ == scope_text(*self),
    {
        match self {
            Scope::ReadLoadTests => "read:loadtests",
            Scope::WriteLoadTests => "write:loadtests",
        }
    }
}

/// Why the load-test service refused a caller.
#[derive(Debug)]
pub enum AuthError {
    Unauthorized,
    Forbidden(String),
    Invalid(String),
    Upstream(String),
}

/// The state of a recorded load-test run.
#[derive(Clone, Copy, Debug, PartialEq, Eq, Structural)]
pub enum RunStatus {
    Pending,
    Running,
    Completed,
    Failed,
    Cancelled,
}

pub open spec fn status_text(s: RunStatus) -> Seq<char> {
    match s {
        RunStatus::Pending => "pending"@,
        RunStatus::Running => "running"@,
        RunStatus::Completed => "completed"@,
        RunStatus::Failed => "failed"@,
        RunStatus::Cancelled => "cancelled"@,
    }
}

/// The status that a stored text names; any unknown text is `Pending`.
pub open spec fn status_of_text(t: Seq<char>) -> RunStatus {
    if t == "running"@ {
        RunStatus::Running
    } else if t == "completed"@ {
        RunStatus::Completed
    } else if t == "failed"@ {
        RunStatus::Failed
    } else if t == "cancelled"@ {
        RunStatus::Cancelled
    } else {
        RunStatus::Pending
    }
}

impl RunStatus {
    /// The status as it is stored.
    pub fn as_str(&self) -> (r: &'static str)
        ensures
            r@ == status_text(*self),
    {
        match self {
            RunStatus::Pending => "pending",
            RunStatus::Running => "running",
            RunStatus::Completed => "completed",
            RunStatus::Failed => "failed",
            RunStatus::Cancelled => "cancelled",
        }
    }

    /// The status that a stored text names; any unknown text is `Pending`.
    pub fn from_str(value: &str) -> (r: RunStatus)
        ensures
            r == status_of_text(value@),
    {
        let v = String::from_str(value);
        if v == String::from_str("running") {
            RunStatus::Running
        } else if v == String::from_str("completed") {
            RunStatus::Completed
        } else if v == String::from_str("failed") {
            RunStatus::Failed
        } else if v == String::from_str("cancelled") {
            RunStatus::Cancelled
        } else {
            RunStatus::Pending
        }
    }
}

/// Reading a status back from its stored text gives the status again.
pub proof fn lemma_status_round_trip(s: RunStatus)
    ensures
        status_of_text(status_text(s)) == s,
{
    reveal_strlit("pending");
    reveal_strlit("running");
    reveal_strlit("completed");
    reveal_strlit("failed");
    reveal_strlit("cancelled");
    assert("pending"@[0] != "running"@[0]);
    assert("completed"@[1] != "cancelled"@[1]);
    assert("pending"@.len() != "completed"@.len());
    assert("pending"@.len() != "failed"@.len());
    assert("pending"@.len() != "cancelled"@.len());
    assert("running"@.len() != "completed"@.len());
    assert("running"@.len() != "failed"@.len());
    assert("running"@.len() != "cancelled"@.len());
    assert("completed"@.len() != "failed"@.len());
    assert("failed"@.len() != "cancelled"@.len());
}

/// A length of time in whole seconds.
pub struct GooseDuration {
    pub seconds: u64,
}

impl GooseDuration {
    pub fn as_secs(&self) -> (r: u64)
        ensures
            r == self.seconds,
    {
        self.seconds
    }
}

/// The phase of a running load test.
#[derive(Clone, Copy, Debug, PartialEq, Eq, Structural)]
pub enum EnginePhase {
    Idle,
    Increase,
    Maintain,
    Decrease,
    Shutdown,
    Completed,
}

/// The level of a streamed log line.
#[derive(Clone, Copy, Debug, PartialEq, Eq, Structural)]
pub enum LogLevel {
    Trace,
    Debug,
    Info,
    Warn,
    Error,
}

/// A status update of a run.
pub struct StatusEnvelope {
    pub run_id: String,
    pub phase: EnginePhase,
    pub active_users: u32,
    pub duration_seconds: u64,
}

/// A request for a load-test recipe from a model.
pub struct RecipeRequest {
    pub model: String,
    pub input: String,
}

/// A model's analysis of a finished run.
pub struct AnalysisResponse {
    pub summary: String,
    pub bottlenecks: Vec<String>,
    pub recommendations: Vec<String>,
}

} // verus!
