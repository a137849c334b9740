//! The instance supervisor's data: the request to run one instance, the
//! live instance with its single-use cancellation token, and the decisions
//! its lifecycle task makes. The OS calls themselves (spawning, killing,
//! awaiting) happen outside the library; every decision between them is
//! made here.

use vstd::prelude::*;

use vstd::string::StringExecFns;

use crate::Module;
use crate::config::ModuleKind;
use crate::ids::fresh_uuid;
use crate::text::clone_string_vec;

verus! {

/// A request to run one instance of a module: the module (shared,
/// read-only), a freshly assigned unique instance identifier, and the
/// invocation arguments. Immutable once created.
#[derive(Debug, Clone)]
pub struct InstanceSpec {
    pub uid: u128,
    pub module: Module,
    pub args: Vec<String>,
}

impl InstanceSpec {
    /// Builds a request with a freshly drawn identifier.
    pub fn new(module: Module, args: Vec<String>) -> (r: Self)
        ensures
            r.module == module,
            r.args == args,
            (r.uid >> 76) & 0xf == 4,
    {
        InstanceSpec { uid: fresh_uuid(), module, args }
    }

    /// The command that launches this instance, dispatched on the module
    /// kind: the host runtime with the module path prepended to the
    /// arguments for a WebAssembly module, the binary itself otherwise.
    pub fn launch_command(&self) -> (r: (String, Vec<String>))
        ensures
            self.module.kind == ModuleKind::Wasm32Wasi ==> (r.0@ == "wasmtime"@ && r.1@ == seq![
                self.module.path,
            ] + self.args@),
            self.module.kind == ModuleKind::Native ==> (r.0 == self.module.path && r.1@
                == self.args@),
    {
        match self.module.kind {
            ModuleKind::Wasm32Wasi => {
                let mut full: Vec<String> = Vec::new();
                full.push(self.module.path.clone());
                let mut rest = clone_string_vec(&self.args);
                full.append(&mut rest);
                proof {
                    assert(full@ =~= seq![self.module.path] + self.args@);
                }
                (String::from_str("wasmtime"), full)
            },
            ModuleKind::Native => (self.module.path.clone(), clone_string_vec(&self.args)),
        }
    }
}

/// The one-shot cancellation sender of one instance, as an owned,
/// single-use token. It is taken at most once; taking it again yields
/// nothing rather than a double kill.
#[derive(Debug, Clone, Copy, PartialEq, Eq, Structural)]
pub struct StopToken {
    pub instance: u128,
}

/// What a stop request resolves to.
#[derive(Debug, Clone, Copy, PartialEq, Eq, Structural)]
pub enum ShutdownSignal {
    /// The token was still held: send the stop signal and await the exit.
    SendStop(StopToken),
    /// The instance already stopped (or a stop is already under way):
    /// nothing to do, and no error.
    AlreadyStopped,
}

/// A live instance: its request, and the cancellation token while the
/// instance still holds one. The OS process handle and the background
/// lifecycle task live outside the library, keyed by the instance id.
#[derive(Debug)]
pub struct Instance {
    pub spec: InstanceSpec,
    pub stop_sender: Option<StopToken>,
}

impl Instance {
    /// Whether the cancellation token is still held.
    pub open spec fn stop_pending(self) -> bool {
        self.stop_sender is Some
    }

    /// The token names this instance.
    pub open spec fn wf(self) -> bool {
        match self.stop_sender {
            Some(t) => t.instance == self.spec.uid,
            None => true,
        }
    }

    /// A freshly spawned instance holds its cancellation token.
    pub fn from_spawn(spec: InstanceSpec) -> (r: Self)
        ensures
            r.spec == spec,
            r.stop_pending(),
            r.wf(),
    {
        let token = StopToken { instance: spec.uid };
        Instance { spec, stop_sender: Some(token) }
    }

    /// Resolves a stop request. The first call hands out the token so the
    /// caller can signal the lifecycle task; any later call (or a call
    /// after a natural exit released the token) is a quiet no-op, never a
    /// panic and never a second kill.
    pub fn shutdown(&mut self) -> (r: ShutdownSignal)
        requires
            old(self).wf(),
        ensures
            final(self).wf(),
            !final(self).stop_pending(),
            final(self).spec == old(self).spec,
            old(self).stop_pending() ==> r == ShutdownSignal::SendStop(
                StopToken { instance: old(self).spec.uid },
            ),
            !old(self).stop_pending() ==> r == ShutdownSignal::AlreadyStopped,
    {
        match self.stop_sender.take() {
            Some(t) => ShutdownSignal::SendStop(t),
            None => ShutdownSignal::AlreadyStopped,
        }
    }

    /// A natural exit releases the token: no stop signal will be sent.
    pub fn exited(&mut self)
        requires
            old(self).wf(),
        ensures
            final(self).wf(),
            !final(self).stop_pending(),
            final(self).spec == old(self).spec,
    {
        let _ = self.stop_sender.take();
    }
}

/// The first of the two events the lifecycle task races: the process
/// exiting on its own, or the stop signal arriving.
#[derive(Debug, Clone, Copy, PartialEq, Eq, Structural)]
pub enum LifeEvent {
    Exited,
    StopRequested,
}

/// What the lifecycle task does once its race resolves.
#[derive(Debug, Clone, Copy, PartialEq, Eq, Structural)]
pub enum LifeAction {
    /// The process is already gone: record `Quit` and finish.
    ReportQuit,
    /// A stop was requested: terminate the process, wait for it to
    /// actually exit, then record `Quit` and finish.
    KillWaitReportQuit,
}

/// Resolves the race between natural exit and the stop signal. Whichever
/// event came first fully determines the terminal path, and both paths
/// record `Quit` exactly once.
pub fn lifecycle_action(ev: LifeEvent) -> (a: LifeAction)
    ensures
        (ev == LifeEvent::Exited) <==> (a == LifeAction::ReportQuit),
        (ev == LifeEvent::StopRequested) <==> (a == LifeAction::KillWaitReportQuit),
{
    match ev {
        LifeEvent::Exited => LifeAction::ReportQuit,
        LifeEvent::StopRequested => LifeAction::KillWaitReportQuit,
    }
}

} // verus!
