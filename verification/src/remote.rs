//! The remote-restart protocol. Here the monitored unit is a WebAssembly
//! execution context living inside a long-lived runtime-host process, so
//! the control process cannot kill the OS process. Instead the host
//! exposes one remote operation, `Restart`, which stops the running
//! execution task, waits for it, re-initializes the engine and starts a
//! fresh task — serialized by a mutual-exclusion region held outside the
//! library. The decisions are made here; the engine calls are performed
//! outside.

use vstd::prelude::*;

use crate::clock::now_rfc3339;

verus! {

/// One engine operation the runtime host performs during a restart.
#[derive(Debug, Clone, Copy, PartialEq, Eq, Structural)]
pub enum EngineStep {
    /// Interrupt the running execution task (breaking any blocking call
    /// into the module) and wait for it to finish.
    InterruptAndAwait,
    /// Re-initialize the engine, re-load the module and start a new
    /// execution task. Failure here is fatal to the host: there is no
    /// fallback context, and no half-initialized engine may keep serving.
    LaunchModule,
}

/// The execution context of the runtime host: the module it hosts and
/// whether an execution task is currently running.
#[derive(Debug)]
pub struct WasiRuntime {
    pub path: String,
    pub running: bool,
}

/// The state a restart leaves the context in: running, whatever it was
/// before.
pub open spec fn restarted(r: WasiRuntime) -> WasiRuntime {
    WasiRuntime { path: r.path, running: true }
}

impl WasiRuntime {
    pub fn new(path: String) -> (r: Self)
        ensures
            r.path == path,
            !r.running,
    {
        WasiRuntime { path, running: false }
    }

    /// The stop half: interrupt and await the task when one runs, nothing
    /// otherwise. Never an error.
    pub fn stop_steps(&mut self) -> (acts: Vec<EngineStep>)
        ensures
            final(self).path == old(self).path,
            !final(self).running,
            old(self).running ==> acts@ =~= seq![EngineStep::InterruptAndAwait],
            !old(self).running ==> acts@.len() == 0,
    {
        let mut acts: Vec<EngineStep> = Vec::new();
        if self.running {
            acts.push(EngineStep::InterruptAndAwait);
            self.running = false;
        }
        acts
    }

    /// The start half: launch a task when none runs, nothing otherwise.
    pub fn start_steps(&mut self) -> (acts: Vec<EngineStep>)
        ensures
            final(self).path == old(self).path,
            final(self).running,
            !old(self).running ==> acts@ =~= seq![EngineStep::LaunchModule],
            old(self).running ==> acts@.len() == 0,
    {
        let mut acts: Vec<EngineStep> = Vec::new();
        if !self.running {
            acts.push(EngineStep::LaunchModule);
            self.running = true;
        }
        acts
    }

    /// The whole restart: stop strictly before start, and the context is
    /// running afterwards. Total — a restart is accepted from every
    /// state, including right after another restart.
    pub fn restart_steps(&mut self) -> (acts: Vec<EngineStep>)
        ensures
            *final(self) == restarted(*old(self)),
            old(self).running ==> acts@ =~= seq![
                EngineStep::InterruptAndAwait,
                EngineStep::LaunchModule,
            ],
            !old(self).running ==> acts@ =~= seq![EngineStep::LaunchModule],
    {
        let mut acts = self.stop_steps();
        let mut rest = self.start_steps();
        acts.append(&mut rest);
        acts
    }
}

/// The acknowledgment of one `Restart` call: the timestamp marking its
/// completion.
#[derive(Debug)]
pub struct RestartResponse {
    pub restarted: String,
}

/// Handles one remote `Restart` call whose completion time is `now`:
/// plans the engine steps and acknowledges with that timestamp.
pub fn handle_restart_at(rt: &mut WasiRuntime, now: String) -> (r: (
    RestartResponse,
    Vec<EngineStep>,
))
    ensures
        *final(rt) == restarted(*old(rt)),
        r.0.restarted == now,
        old(rt).running ==> r.1@ =~= seq![EngineStep::InterruptAndAwait, EngineStep::LaunchModule],
        !old(rt).running ==> r.1@ =~= seq![EngineStep::LaunchModule],
{
    let acts = rt.restart_steps();
    (RestartResponse { restarted: now }, acts)
}

/// Handles one remote `Restart` call, timestamping it from the clock.
pub fn handle_restart(rt: &mut WasiRuntime) -> (r: (RestartResponse, Vec<EngineStep>))
    ensures
        *final(rt) == restarted(*old(rt)),
        old(rt).running ==> r.1@ =~= seq![EngineStep::InterruptAndAwait, EngineStep::LaunchModule],
        !old(rt).running ==> r.1@ =~= seq![EngineStep::LaunchModule],
{
    let now = now_rfc3339();
    handle_restart_at(rt, now)
}

/// Restart is idempotent in effect and never gets stuck: from any state it
/// completes and leaves the context running, and a second restart straight
/// after the first completes too, leaving the same state. (That each
/// acknowledgment carries a later timestamp than the one before rests on
/// the clock, which the library does not constrain.)
pub proof fn lemma_restart_idempotent(r0: WasiRuntime)
    ensures
        restarted(r0).running,
        restarted(restarted(r0)) == restarted(r0),
        restarted(r0).path == r0.path,
{
}

} // verus!
