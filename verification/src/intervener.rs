//! Intervener — the acting layer: the interventions and what the shell
//! and HTTP strategies decide around the command or request they run.
//!
//! Running a shell command or sending an HTTP request is the caller's
//! part; this module decides what to run and turns what came back into
//! an [`InterventionResult`], keeping the audit history.

use vstd::prelude::*;
use crate::error::{MigiError, MigiResult};
use crate::text::{concat2, concat3, starts_with, starts_with_str};

verus! {

/// Why an intervention was started.
#[derive(Debug, Clone)]
pub enum InterventionTrigger {
    PredictedAnomaly,
    DetectedAnomaly,
    HostRequest,
    ScheduledCheck,
    Manual(String),
}

/// What an intervention does.
#[derive(Debug, Clone)]
pub enum Action {
    Diagnose { command: String },
    Suggest { suggestion: String },
    Hotfix { patch: String },
    Isolate { target: String },
    Reconfigure { key: String, value: String },
    EmergencyBlock { reason: String },
}

/// Whether an action writes to the host and so needs a rollback path.
pub open spec fn action_needs_rollback(a: Action) -> bool {
    a is Hotfix || a is Isolate || a is Reconfigure || a is EmergencyBlock
}

impl Action {
    /// Whether this action needs a rollback: every action but `Diagnose`
    /// and `Suggest`.
    pub fn needs_rollback(&self) -> (r: bool)
        ensures
            r == action_needs_rollback(*self),
    {
        match self {
            Action::Hotfix { .. } | Action::Isolate { .. } | Action::Reconfigure { .. }
            | Action::EmergencyBlock { .. } => true,
            Action::Diagnose { .. } | Action::Suggest { .. } => false,
        }
    }
}

/// An intervention on the host. The id is the 128-bit value of a UUID.
#[derive(Debug, Clone)]
pub struct Intervention {
    pub id: u128,
    pub trigger: InterventionTrigger,
    pub target: String,
    pub action: Action,
    pub executed: bool,
    pub rollbackable: bool,
    pub rollback_action: Option<String>,
}

/// What came of an intervention.
#[derive(Debug, Clone)]
pub struct InterventionResult {
    pub intervention_id: u128,
    pub success: bool,
    pub output: String,
    pub rollback_needed: bool,
}

/// A fresh random intervention id: the 128-bit value of
/// `uuid::Uuid::new_v4()`. Its version field (bits 76..80) is 4 and its
/// variant field (bits 62..64) is `0b10`, as the uuid crate sets them;
/// the other bits are random and nothing is stated of them.
#[verifier::external_body]
pub fn new_intervention_id() -> (r: u128)
    ensures
        (r >> 76u128) & 0xfu128 == 4,
        (r >> 62u128) & 0x3u128 == 2,
{
    uuid::Uuid::new_v4().as_u128()
}

/// The shell command that an action runs, or `None` for a suggestion,
/// which is answered without running anything.
pub open spec fn shell_command_spec(a: Action) -> Option<Seq<char>> {
    match a {
        Action::Diagnose { command } => Some(command@),
        Action::Hotfix { patch } => Some(patch@),
        Action::Isolate { target } => Some("echo 'Isolating: "@ + target@ + "'"@),
        Action::Reconfigure { key, value } => Some("echo 'Setting "@ + key@ + "="@ + value@ + "'"@),
        Action::Suggest { .. } => None,
        Action::EmergencyBlock { reason } => Some("echo 'EMERGENCY BLOCK: "@ + reason@ + "'"@),
    }
}

/// What the shell strategy does with an intervention: answer it at once,
/// or run a command.
#[derive(Debug)]
pub enum ShellStep {
    Respond(InterventionResult),
    Run(String),
}

/// Executes interventions as shell commands and keeps the history of
/// their results.
#[derive(Debug)]
pub struct ShellInterventionStrategy {
    history: Vec<InterventionResult>,
}

/// The result that the shell strategy records for a command that ran:
/// its standard output on success, else `stderr: ` and its standard error.
pub open spec fn shell_result_matches(
    r: InterventionResult,
    intervention: Intervention,
    success: bool,
    stdout: Seq<char>,
    stderr: Seq<char>,
) -> bool {
    &&& r.intervention_id == intervention.id
    &&& r.success == success
    &&& r.output@ == (if success { stdout } else { "stderr: "@ + stderr })
    &&& r.rollback_needed == (action_needs_rollback(intervention.action) && success)
}

/// The answer to a suggestion: successful, output `Suggestion: ` and the
/// text, no rollback.
pub open spec fn suggestion_answered(r: InterventionResult, intervention: Intervention) -> bool {
    &&& r.intervention_id == intervention.id
    &&& r.success
    &&& !r.rollback_needed
    &&& r.output@ == "Suggestion: "@ + intervention.action->suggestion@
}

impl ShellInterventionStrategy {
    /// A strategy with an empty history.
    pub fn new() -> (r: Self)
        ensures
            r.history_view().len() == 0,
    {
        ShellInterventionStrategy { history: Vec::new() }
    }

    /// The results recorded so far, oldest first.
    pub closed spec fn history_view(&self) -> Seq<InterventionResult> {
        self.history@
    }

    /// The results recorded so far, oldest first.
    pub fn history(&self) -> (r: &Vec<InterventionResult>)
        ensures
            r@ == self.history_view(),
    {
        &self.history
    }

    /// What to do with an intervention: a suggestion is answered at once
    /// (successful, output `Suggestion: ` and the text, no rollback) and
    /// the answer is recorded at the end of the history; every other
    /// action runs its command, to be recorded by [`Self::record`].
    pub fn plan(&mut self, intervention: &Intervention) -> (r: ShellStep)
        ensures
            match shell_command_spec(intervention.action) {
                Some(cmd) => (r matches ShellStep::Run(c) && c@ == cmd)
                    && final(self).history_view() == old(self).history_view(),
                None => (r matches ShellStep::Respond(res) && suggestion_answered(res, *intervention)
                    && final(self).history_view().len() == old(self).history_view().len() + 1
                    && final(self).history_view().drop_last() == old(self).history_view()
                    && suggestion_answered(final(self).history_view().last(), *intervention)),
            },
    {
        match &intervention.action {
            Action::Diagnose { command } => ShellStep::Run(command.clone()),
            Action::Hotfix { patch } => ShellStep::Run(patch.clone()),
            Action::Isolate { target } => ShellStep::Run(concat3("echo 'Isolating: ", target.as_str(), "'")),
            Action::Reconfigure { key, value } => {
                let mut c = concat3("echo 'Setting ", key.as_str(), "=");
                c.append(value.as_str());
                c.append("'");
                ShellStep::Run(c)
            },
            Action::Suggest { suggestion } => {
                let output = concat2("Suggestion: ", suggestion.as_str());
                self.history.push(InterventionResult {
                    intervention_id: intervention.id,
                    success: true,
                    output: output.clone(),
                    rollback_needed: false,
                });
                assert(self.history@.drop_last() =~= old(self).history@);
                ShellStep::Respond(InterventionResult {
                    intervention_id: intervention.id,
                    success: true,
                    output,
                    rollback_needed: false,
                })
            },
            Action::EmergencyBlock { reason } => ShellStep::Run(
                concat3("echo 'EMERGENCY BLOCK: ", reason.as_str(), "'"),
            ),
        }
    }

    /// Turns the outcome of a command into the result, and records it
    /// at the end of the history.
    pub fn record(
        &mut self,
        intervention: &Intervention,
        success: bool,
        stdout: &str,
        stderr: &str,
    ) -> (r: InterventionResult)
        ensures
            shell_result_matches(r, *intervention, success, stdout@, stderr@),
            final(self).history_view().len() == old(self).history_view().len() + 1,
            final(self).history_view().drop_last() == old(self).history_view(),
            shell_result_matches(final(self).history_view().last(), *intervention, success, stdout@, stderr@),
    {
        let output = if success {
            String::from_str(stdout)
        } else {
            concat2("stderr: ", stderr)
        };
        let rollback_needed = intervention.action.needs_rollback() && success;
        let stored = InterventionResult {
            intervention_id: intervention.id,
            success,
            output: output.clone(),
            rollback_needed,
        };
        self.history.push(stored);
        assert(self.history@.drop_last() =~= old(self).history@);
        InterventionResult { intervention_id: intervention.id, success, output, rollback_needed }
    }
}

/// The URL that the HTTP strategy calls for a target: the target itself
/// when it starts with `http`, else `http://<target>/api/intervene`.
pub open spec fn http_url_spec(target: Seq<char>) -> Seq<char> {
    if starts_with(target, "http"@) {
        target
    } else {
        "http://"@ + target + "/api/intervene"@
    }
}

/// The result that the HTTP strategy records for a response.
pub open spec fn http_result_matches(
    r: InterventionResult,
    intervention: Intervention,
    status: Seq<char>,
    body: Seq<char>,
    success: bool,
) -> bool {
    &&& r.intervention_id == intervention.id
    &&& r.success == success
    &&& r.output@ == status + ": "@ + body
    &&& r.rollback_needed == (action_needs_rollback(intervention.action) && success)
}

/// Executes interventions as HTTP calls and keeps the history of the
/// responses.
#[derive(Debug)]
pub struct HttpInterventionStrategy {
    history: Vec<InterventionResult>,
}

/// The result for a request that could not be sent.
pub open spec fn request_failure(r: InterventionResult, intervention: Intervention, error: Seq<char>) -> bool {
    &&& r.intervention_id == intervention.id
    &&& !r.success
    &&& !r.rollback_needed
    &&& r.output@ == "HTTP request failed: "@ + error
}

impl HttpInterventionStrategy {
    /// A strategy with an empty history.
    pub fn new() -> (r: Self)
        ensures
            r.history_view().len() == 0,
    {
        HttpInterventionStrategy { history: Vec::new() }
    }

    /// The results recorded so far, oldest first.
    pub closed spec fn history_view(&self) -> Seq<InterventionResult> {
        self.history@
    }

    /// The results recorded so far, oldest first.
    pub fn history(&self) -> (r: &Vec<InterventionResult>)
        ensures
            r@ == self.history_view(),
    {
        &self.history
    }

    /// The URL to call for an intervention.
    pub fn url(&self, intervention: &Intervention) -> (r: String)
        ensures
            r@ == http_url_spec(intervention.target@),
    {
        let t = intervention.target.as_str();
        if starts_with_str(t, "http") {
            intervention.target.clone()
        } else {
            concat3("http://", t, "/api/intervene")
        }
    }

    /// Turns a response (its status line, its body and whether the status
    /// is a success) into the result, and records it.
    pub fn record_response(
        &mut self,
        intervention: &Intervention,
        status: &str,
        body: &str,
        success: bool,
    ) -> (r: InterventionResult)
        ensures
            http_result_matches(r, *intervention, status@, body@, success),
            final(self).history_view().len() == old(self).history_view().len() + 1,
            final(self).history_view().drop_last() == old(self).history_view(),
            http_result_matches(final(self).history_view().last(), *intervention, status@, body@, success),
    {
        let output = concat3(status, ": ", body);
        let rollback_needed = intervention.action.needs_rollback() && success;
        let stored = InterventionResult {
            intervention_id: intervention.id,
            success,
            output: output.clone(),
            rollback_needed,
        };
        self.history.push(stored);
        assert(self.history@.drop_last() =~= old(self).history@);
        InterventionResult { intervention_id: intervention.id, success, output, rollback_needed }
    }

    /// The result for a request that could not be sent: unsuccessful,
    /// no rollback, output `HTTP request failed: ` and the error; it is
    /// recorded at the end of the history.
    pub fn request_failed(&mut self, intervention: &Intervention, error: &str) -> (r: InterventionResult)
        ensures
            request_failure(r, *intervention, error@),
            final(self).history_view().len() == old(self).history_view().len() + 1,
            final(self).history_view().drop_last() == old(self).history_view(),
            request_failure(final(self).history_view().last(), *intervention, error@),
    {
        let output = concat2("HTTP request failed: ", error);
        self.history.push(InterventionResult {
            intervention_id: intervention.id,
            success: false,
            output: output.clone(),
            rollback_needed: false,
        });
        assert(self.history@.drop_last() =~= old(self).history@);
        InterventionResult { intervention_id: intervention.id, success: false, output, rollback_needed: false }
    }
}

/// Which registered strategy executes an intervention: the first one;
/// with none registered, the intervention fails.
pub fn choose_strategy(registered: usize) -> (r: MigiResult<usize>)
    ensures
        registered > 0 ==> r == Ok::<usize, MigiError>(0),
        registered == 0 ==> (r matches Err(MigiError::Intervener(m))
            && m@ == "no intervention strategies registered"@),
{
    if registered == 0 {
        Err(MigiError::Intervener(String::from_str("no intervention strategies registered")))
    } else {
        Ok(0)
    }
}

} // verus!
