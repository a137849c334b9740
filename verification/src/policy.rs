//! The restart-policy controller: on every sampling tick it compares the
//! sample against the configured threshold and decides between recording
//! only and recording plus a restart. Without a threshold it is purely
//! observational. The controller owns its target's lifecycle alone, so a
//! restart in flight is never re-triggered by a concurrent tick.

use vstd::prelude::*;

use vstd::string::StringExecFns;

use crate::Pid;
use crate::sampler::SampleError;
use crate::text::ascii_view;
use crate::text::dec_bytes;
use crate::text::u64_string;

verus! {

/// Configuration of the single-target manager: which executor to run,
/// which module it hosts, the optional memory threshold (in the sampler's
/// unit, kilobytes), and where to write metrics. No threshold means no
/// restart-on-memory.
#[derive(Debug, Clone)]
pub struct Config {
    pub executor: Executor,
    pub wasi: Wasi,
    pub threshold: Option<u64>,
    pub outdir: String,
}

#[derive(Debug, Clone)]
pub struct Executor {
    pub path: String,
}

#[derive(Debug, Clone)]
pub struct Wasi {
    pub path: String,
    pub mapdirs: Vec<MapDir>,
}

/// One directory mapping handed to the host runtime.
#[derive(Debug, Clone)]
pub struct MapDir {
    pub host: String,
    pub guest: String,
}

/// The `guest::host` argument form of one directory mapping.
pub fn mapdir_arg(m: &MapDir) -> (r: String)
    ensures
        r@ == m.guest@ + "::"@ + m.host@,
{
    let mut s = m.guest.clone();
    s.append("::");
    s.append(m.host.as_str());
    s
}

/// The command that runs the configured module under the host runtime,
/// with every directory mapping passed after a single `--mapdir` flag.
pub fn build_wasi_command(w: &Wasi) -> (r: (String, Vec<String>))
    ensures
        r.0@ == "wasmtime"@,
        r.1@.len() == 3 + w.mapdirs@.len(),
        r.1@[0]@ == "run"@,
        r.1@[1] == w.path,
        r.1@[2]@ == "--mapdir"@,
        forall|k: int|
            0 <= k < w.mapdirs@.len() ==> (#[trigger] r.1@[3 + k])@ == w.mapdirs@[k].guest@ + "::"@
                + w.mapdirs@[k].host@,
{
    let mut args: Vec<String> = Vec::new();
    args.push(String::from_str("run"));
    args.push(w.path.clone());
    args.push(String::from_str("--mapdir"));
    let mut k: usize = 0;
    while k < w.mapdirs.len()
        invariant
            0 <= k <= w.mapdirs@.len(),
            args@.len() == 3 + k,
            args@[0]@ == "run"@,
            args@[1] == w.path,
            args@[2]@ == "--mapdir"@,
            forall|m: int|
                0 <= m < k ==> (#[trigger] args@[3 + m])@ == w.mapdirs@[m].guest@ + "::"@
                    + w.mapdirs@[m].host@,
        decreases w.mapdirs@.len() - k,
    {
        args.push(mapdir_arg(&w.mapdirs[k]));
        k = k + 1;
    }
    (String::from_str("wasmtime"), args)
}

/// What one sampling tick calls for.
#[derive(Debug, Clone, Copy, PartialEq, Eq, Structural)]
pub enum PolicyAction {
    /// Record the sample; the footprint is within bounds (or no threshold
    /// is configured).
    Record(u64),
    /// Record the sample and restart the target: the footprint crossed
    /// the threshold.
    RecordAndRestart(u64),
    /// The sample failed; log it and skip this cycle.
    Skip(SampleError),
}

/// The tick decision: restart exactly when a threshold is configured and
/// the sample strictly exceeds it; never on a failed sample; never
/// without a threshold.
pub open spec fn tick_decision(threshold: Option<u64>, sample: Result<u64, SampleError>)
    -> PolicyAction {
    match sample {
        Err(e) => PolicyAction::Skip(e),
        Ok(v) => match threshold {
            None => PolicyAction::Record(v),
            Some(th) => if v > th {
                PolicyAction::RecordAndRestart(v)
            } else {
                PolicyAction::Record(v)
            },
        },
    }
}

/// Decides one sampling tick.
pub fn plan_tick(threshold: Option<u64>, sample: Result<u64, SampleError>) -> (a: PolicyAction)
    ensures
        a == tick_decision(threshold, sample),
{
    match sample {
        Err(e) => PolicyAction::Skip(e),
        Ok(v) => match threshold {
            None => PolicyAction::Record(v),
            Some(th) => if v > th {
                PolicyAction::RecordAndRestart(v)
            } else {
                PolicyAction::Record(v)
            },
        },
    }
}

/// Without a configured threshold, sampling is purely observational: no
/// tick ever asks for a restart.
pub proof fn lemma_no_threshold_never_restarts(sample: Result<u64, SampleError>)
    ensures
        forall|v: u64| tick_decision(None, sample) != PolicyAction::RecordAndRestart(v),
{
}

/// With a threshold, a tick asks for a restart exactly when its sample
/// succeeded and strictly exceeds the threshold.
pub proof fn lemma_restart_iff_breach(th: u64, sample: Result<u64, SampleError>)
    ensures
        forall|v: u64|
            tick_decision(Some(th), sample) == PolicyAction::RecordAndRestart(v) <==> (sample
                == Ok::<u64, SampleError>(v) && v > th),
{
}

/// Decides a whole run of ticks at once, one decision per sample in
/// order.
pub fn plan_ticks(threshold: Option<u64>, samples: &Vec<Result<u64, SampleError>>) -> (acts: Vec<
    PolicyAction,
>)
    ensures
        acts@.len() == samples@.len(),
        forall|i: int|
            0 <= i < samples@.len() ==> acts@[i] == tick_decision(threshold, #[trigger] samples@[i]),
{
    let mut acts: Vec<PolicyAction> = Vec::new();
    let mut i: usize = 0;
    while i < samples.len()
        invariant
            0 <= i <= samples@.len(),
            acts@.len() == i,
            forall|m: int|
                0 <= m < i ==> acts@[m] == tick_decision(threshold, #[trigger] samples@[m]),
        decreases samples@.len() - i,
    {
        acts.push(plan_tick(threshold, samples[i]));
        i = i + 1;
    }
    acts
}

/// One step the runtime performs while restarting the managed target.
#[derive(Debug, Clone, Copy, PartialEq, Eq, Structural)]
pub enum TargetAction {
    /// Terminate this process and wait until its exit is observed.
    KillAndWait(Pid),
    /// Launch a fresh child process.
    LaunchChild,
}

/// The single managed target of the restart-policy controller: its
/// configuration and the child process currently bound to it, if any.
#[derive(Debug)]
pub struct Target {
    pub config: Config,
    pub child: Option<Pid>,
}

impl Target {
    pub fn new(config: Config) -> (r: Self)
        ensures
            r.config == config,
            r.child is None,
    {
        Target { config, child: None }
    }

    /// Binds a freshly launched child. Starting over a live child is
    /// refused structurally: the caller must have observed the stop first.
    pub fn attach_child(&mut self, pid: Pid)
        requires
            old(self).child is None,
        ensures
            final(self).child == Some(pid),
            final(self).config == old(self).config,
    {
        self.child = Some(pid);
    }

    /// Takes the current child for termination; a second take (or a take
    /// with no child running) yields nothing and is a quiet no-op.
    pub fn stop_take(&mut self) -> (r: Option<Pid>)
        ensures
            r == old(self).child,
            final(self).child is None,
            final(self).config == old(self).config,
    {
        self.child.take()
    }

    /// The restart sequence: terminate the current child and wait for its
    /// exit before anything else, then launch anew — the launch never
    /// precedes the observed stop, so resources are never double-bound.
    pub fn restart_steps(&mut self) -> (acts: Vec<TargetAction>)
        ensures
            final(self).child is None,
            final(self).config == old(self).config,
            old(self).child matches Some(p) ==> acts@ =~= seq![
                TargetAction::KillAndWait(p),
                TargetAction::LaunchChild,
            ],
            old(self).child is None ==> acts@ =~= seq![TargetAction::LaunchChild],
    {
        let mut acts: Vec<TargetAction> = Vec::new();
        match self.child.take() {
            Some(p) => {
                acts.push(TargetAction::KillAndWait(p));
                acts.push(TargetAction::LaunchChild);
            },
            None => {
                acts.push(TargetAction::LaunchChild);
            },
        }
        acts
    }

    /// Where to sample: the live child's pid, or an explicit
    /// process-gone failure — never a stale pid and never a zero figure.
    pub fn sample_key(&self) -> (r: Result<Pid, SampleError>)
        ensures
            self.child matches Some(p) ==> r == Ok::<Pid, SampleError>(p),
            self.child is None ==> r == Err::<Pid, SampleError>(SampleError::ProcessGone),
    {
        match &self.child {
            Some(p) => Ok(*p),
            None => Err(SampleError::ProcessGone),
        }
    }
}

/// The path of a process's memory-mapping accounting data.
pub fn smaps_path(pid: Pid) -> (r: String)
    ensures
        r@ == "/proc/"@ + ascii_view(dec_bytes(pid.0 as nat)) + "/smaps"@,
{
    let mut s = String::from_str("/proc/");
    let num = u64_string(pid.0 as u64);
    s.append(num.as_str());
    s.append("/smaps");
    s
}

/// One line of the metrics file: timestamp, a comma, the sampled figure,
/// and a newline.
pub fn csv_line(now: &str, uss: u64) -> (r: String)
    ensures
        r@ == now@ + ","@ + ascii_view(dec_bytes(uss as nat)) + "\n"@,
{
    let mut s = String::from_str(now);
    s.append(",");
    let num = u64_string(uss);
    s.append(num.as_str());
    s.append("\n");
    s
}

} // verus!
