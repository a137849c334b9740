use memsched::config::{Cli, Config, ConfigEntry, ModuleKind};
use memsched::coordinator::{coordinator_step, CoordEffect, CoordEvent, CoordError, InstanceOps,
    StatusTable};
use memsched::metrics::{InstanceMemoryMetrics, InstanceMemoryMetricsData};
use memsched::ids::{InstanceId, WorkerId};
use memsched::handler::{NativeBinary, Wasm32Wasi};
use memsched::policy::{build_wasi_command, csv_line, mapdir_arg, plan_tick, plan_ticks,
    smaps_path, Config as SchedConfig, Executor, MapDir, PolicyAction, Target, TargetAction, Wasi};
use memsched::remote::{handle_restart_at, EngineStep, WasiRuntime};
use memsched::sampler::SampleError;
use memsched::status::{advance_status, parse_status, status_bytes, status_label, InstanceStatus};
use memsched::supervisor::{Instance, InstanceSpec, LifeAction, LifeEvent, ShutdownSignal,
    lifecycle_action};
use memsched::worker::{build_instance_invocation, InstanceManifest, WorkerManifest};
use memsched::{Module, Pid};

fn native_module() -> Module {
    Module::new(ModuleKind::Native, "/usr/bin/sleep".to_string(), &b"module".to_vec())
}

#[test]
fn statuses_move_strictly_forward() {
    let s = InstanceStatus::Starting;
    let r = InstanceStatus::Running;
    let q = InstanceStatus::Quit;
    assert_eq!(advance_status(s, r), Ok(r));
    assert_eq!(advance_status(s, q), Ok(q));
    assert_eq!(advance_status(r, q), Ok(q));
    assert!(advance_status(r, r).is_err());
    assert!(advance_status(q, r).is_err());
    assert!(advance_status(q, s).is_err());
    assert!(advance_status(r, s).is_err());
}

#[test]
fn status_labels_round_trip() {
    for st in [InstanceStatus::Starting, InstanceStatus::Running, InstanceStatus::Quit] {
        assert_eq!(parse_status(&status_bytes(st)), Some(st));
    }
    assert_eq!(status_label(InstanceStatus::Running), "running");
    assert_eq!(status_label(InstanceStatus::Starting), "starting");
    assert_eq!(status_label(InstanceStatus::Quit), "quit");
    assert_eq!(parse_status(b"paused"), None);
    assert_eq!(parse_status(b""), None);
}

#[test]
fn table_refuses_reused_ids_and_backward_moves() {
    let mut t = StatusTable::new();
    assert_eq!(t.register(7), Ok(()));
    assert_eq!(t.register(7), Err(CoordError::DuplicateInstance));
    assert_eq!(t.update(7, InstanceStatus::Running), Ok(()));
    assert_eq!(t.update(7, InstanceStatus::Running), Err(CoordError::RefusedTransition));
    assert_eq!(t.update(9, InstanceStatus::Running), Err(CoordError::UnknownInstance));
    assert_eq!(t.update(7, InstanceStatus::Quit), Ok(()));
    assert_eq!(t.update(7, InstanceStatus::Running), Err(CoordError::RefusedTransition));
    assert_eq!(t.status(7), Some(InstanceStatus::Quit));
}

#[test]
fn drain_stops_each_live_instance_exactly_once() {
    let mut t = StatusTable::new();
    for id in [1u128, 2, 3, 4] {
        t.register(id).unwrap();
    }
    t.update(1, InstanceStatus::Running).unwrap();
    t.update(2, InstanceStatus::Running).unwrap();
    t.update(2, InstanceStatus::Quit).unwrap();
    let stopped = t.shutdown_all();
    assert_eq!(stopped, vec![1u128, 3, 4]);
    for id in [1u128, 2, 3, 4] {
        assert_eq!(t.status(id), Some(InstanceStatus::Quit));
    }
    assert_eq!(t.shutdown_all(), Vec::<u128>::new());
}

#[test]
fn coordinator_start_quit_cycle() {
    let mut t = StatusTable::new();
    let spec = InstanceSpec::new(native_module(), vec!["infinity".to_string()]);
    let uid = spec.uid;

    let fx = coordinator_step(&mut t, CoordEvent::Cmd(InstanceOps::Start(spec.clone())));
    assert_eq!(fx.len(), 1);
    assert!(matches!(&fx[0], CoordEffect::StartInstance(s) if s.uid == uid));
    assert_eq!(t.status(uid), Some(InstanceStatus::Starting));

    let fx = coordinator_step(&mut t, CoordEvent::Cmd(InstanceOps::Start(spec)));
    assert!(fx.is_empty());

    let fx = coordinator_step(&mut t, CoordEvent::StatusMsg(uid, InstanceStatus::Running));
    assert_eq!(fx.len(), 1);
    assert!(matches!(fx[0], CoordEffect::RegistryUpdate(id, InstanceStatus::Running) if id == uid));

    let fx = coordinator_step(&mut t, CoordEvent::StatusMsg(uid, InstanceStatus::Running));
    assert!(fx.is_empty());

    let fx = coordinator_step(&mut t, CoordEvent::StatusMsg(uid, InstanceStatus::Quit));
    assert_eq!(fx.len(), 2);
    assert!(matches!(fx[0], CoordEffect::RegistryExpire(id) if id == uid));
    assert!(matches!(fx[1], CoordEffect::RegistryUpdate(id, InstanceStatus::Quit) if id == uid));
    assert_eq!(t.status(uid), Some(InstanceStatus::Quit));

    let fx = coordinator_step(&mut t, CoordEvent::Cmd(InstanceOps::Stop(uid)));
    assert!(fx.is_empty());
}

#[test]
fn coordinator_interrupt_signals_every_live_instance() {
    let mut t = StatusTable::new();
    t.register(10).unwrap();
    t.register(11).unwrap();
    t.update(10, InstanceStatus::Running).unwrap();
    let fx = coordinator_step(&mut t, CoordEvent::Interrupt);
    assert_eq!(fx.len(), 2);
    assert!(matches!(fx[0], CoordEffect::SignalStop(10)));
    assert!(matches!(fx[1], CoordEffect::SignalStop(11)));
    assert_eq!(t.status(10), Some(InstanceStatus::Quit));
    assert_eq!(t.status(11), Some(InstanceStatus::Quit));
}

#[test]
fn coordinator_discards_failed_spawn() {
    let mut t = StatusTable::new();
    t.register(5).unwrap();
    let fx = coordinator_step(&mut t, CoordEvent::SpawnFailed(5));
    assert!(fx.is_empty());
    assert_eq!(t.status(5), None);
}

#[test]
fn stop_after_exit_is_a_quiet_no_op() {
    let spec = InstanceSpec::new(native_module(), Vec::new());
    let uid = spec.uid;
    let mut inst = Instance::from_spawn(spec);
    match inst.shutdown() {
        ShutdownSignal::SendStop(t) => assert_eq!(t.instance, uid),
        ShutdownSignal::AlreadyStopped => panic!("first stop must hand out the token"),
    }
    assert!(matches!(inst.shutdown(), ShutdownSignal::AlreadyStopped));

    let mut natural = Instance::from_spawn(InstanceSpec::new(native_module(), Vec::new()));
    natural.exited();
    assert!(matches!(natural.shutdown(), ShutdownSignal::AlreadyStopped));
}

#[test]
fn lifecycle_race_resolution() {
    assert_eq!(lifecycle_action(LifeEvent::Exited), LifeAction::ReportQuit);
    assert_eq!(lifecycle_action(LifeEvent::StopRequested), LifeAction::KillWaitReportQuit);
}

#[test]
fn launch_commands_dispatch_on_kind() {
    let wasm = InstanceSpec::new(
        Module::new(ModuleKind::Wasm32Wasi, "/srv/app.wasm".to_string(), &b"w".to_vec()),
        vec!["--flag".to_string()],
    );
    let (prog, args) = wasm.launch_command();
    assert_eq!(prog, "wasmtime");
    assert_eq!(args, vec!["/srv/app.wasm".to_string(), "--flag".to_string()]);

    let native = InstanceSpec::new(
        Module::new(ModuleKind::Native, "/usr/bin/sleep".to_string(), &b"n".to_vec()),
        vec!["infinity".to_string()],
    );
    let (prog, args) = native.launch_command();
    assert_eq!(prog, "/usr/bin/sleep");
    assert_eq!(args, vec!["infinity".to_string()]);
}

#[test]
fn handler_commands_match_their_kind() {
    let w = Wasm32Wasi::new("/srv/app.wasm".to_string());
    let (prog, args) = w.command(&vec!["-x".to_string()]);
    assert_eq!(prog, "wasmtime");
    assert_eq!(args, vec!["/srv/app.wasm".to_string(), "-x".to_string()]);

    let n = NativeBinary::new("/bin/echo".to_string());
    let (prog, args) = n.command(&vec!["hi".to_string()]);
    assert_eq!(prog, "/bin/echo");
    assert_eq!(args, vec!["hi".to_string()]);
}

#[test]
fn one_restart_for_the_one_breaching_sample() {
    let samples = vec![Ok(40u64), Ok(49), Ok(73), Ok(20)];
    let acts = plan_ticks(Some(50), &samples);
    assert_eq!(
        acts,
        vec![
            PolicyAction::Record(40),
            PolicyAction::Record(49),
            PolicyAction::RecordAndRestart(73),
            PolicyAction::Record(20),
        ]
    );
    let restarts = acts
        .iter()
        .filter(|a| matches!(a, PolicyAction::RecordAndRestart(_)))
        .count();
    assert_eq!(restarts, 1);
}

#[test]
fn no_threshold_means_observation_only() {
    assert_eq!(plan_tick(None, Ok(u64::MAX)), PolicyAction::Record(u64::MAX));
    assert_eq!(plan_tick(Some(50), Ok(50)), PolicyAction::Record(50));
    assert_eq!(
        plan_tick(Some(50), Err(SampleError::ProcessGone)),
        PolicyAction::Skip(SampleError::ProcessGone)
    );
}

#[test]
fn restarted_instance_gets_a_fresh_id() {
    let mut t = StatusTable::new();
    let first = InstanceSpec::new(native_module(), Vec::new());
    let first_id = first.uid;
    coordinator_step(&mut t, CoordEvent::Cmd(InstanceOps::Start(first)));
    coordinator_step(&mut t, CoordEvent::StatusMsg(first_id, InstanceStatus::Running));
    coordinator_step(&mut t, CoordEvent::Cmd(InstanceOps::Stop(first_id)));
    coordinator_step(&mut t, CoordEvent::StatusMsg(first_id, InstanceStatus::Quit));

    let second = InstanceSpec::new(native_module(), Vec::new());
    let second_id = second.uid;
    let fx = coordinator_step(&mut t, CoordEvent::Cmd(InstanceOps::Start(second)));
    assert_eq!(fx.len(), 1);
    assert_ne!(second_id, first_id);
    assert_eq!(t.status(first_id), Some(InstanceStatus::Quit));
    assert_eq!(t.status(second_id), Some(InstanceStatus::Starting));
}

#[test]
fn target_stop_is_idempotent_and_restart_orders_steps() {
    let cfg = SchedConfig {
        executor: Executor { path: "./executor".to_string() },
        wasi: Wasi { path: "/srv/app.wasm".to_string(), mapdirs: Vec::new() },
        threshold: Some(1000),
        outdir: "out".to_string(),
    };
    let mut target = Target::new(cfg);
    assert_eq!(target.sample_key(), Err(SampleError::ProcessGone));
    target.attach_child(Pid(42));
    assert_eq!(target.sample_key(), Ok(Pid(42)));
    assert_eq!(target.stop_take(), Some(Pid(42)));
    assert_eq!(target.stop_take(), None);

    target.attach_child(Pid(43));
    let acts = target.restart_steps();
    assert_eq!(acts, vec![TargetAction::KillAndWait(Pid(43)), TargetAction::LaunchChild]);
    let acts = target.restart_steps();
    assert_eq!(acts, vec![TargetAction::LaunchChild]);
}

#[test]
fn wasi_command_lists_every_mapdir() {
    let w = Wasi {
        path: "/srv/app.wasm".to_string(),
        mapdirs: vec![
            MapDir { host: "/data".to_string(), guest: "/".to_string() },
            MapDir { host: "/tmp/x".to_string(), guest: "/x".to_string() },
        ],
    };
    assert_eq!(mapdir_arg(&w.mapdirs[0]), "/::/data");
    let (prog, args) = build_wasi_command(&w);
    assert_eq!(prog, "wasmtime");
    assert_eq!(
        args,
        vec![
            "run".to_string(),
            "/srv/app.wasm".to_string(),
            "--mapdir".to_string(),
            "/::/data".to_string(),
            "/x::/tmp/x".to_string(),
        ]
    );
}

#[test]
fn remote_restart_is_repeatable_with_later_acks() {
    let mut rt = WasiRuntime::new("/srv/app.wasm".to_string());
    let (ack1, steps1) = handle_restart_at(&mut rt, "2022-01-01T00:00:00+00:00".to_string());
    assert!(rt.running);
    assert_eq!(steps1, vec![EngineStep::LaunchModule]);

    let (ack2, steps2) = handle_restart_at(&mut rt, "2022-01-01T00:00:10+00:00".to_string());
    assert!(rt.running);
    assert_eq!(
        steps2,
        vec![EngineStep::InterruptAndAwait, EngineStep::LaunchModule]
    );
    assert!(ack2.restarted > ack1.restarted);
}

#[test]
fn module_list_expands_to_one_launch_per_instance() {
    let cfg = Config {
        entries: vec![
            ConfigEntry { kind: ModuleKind::Wasm32Wasi, path: "a.wasm".to_string(), count: 2 },
            ConfigEntry { kind: ModuleKind::Native, path: "/bin/b".to_string(), count: 1 },
            ConfigEntry { kind: ModuleKind::Native, path: "/bin/c".to_string(), count: 0 },
        ],
    };
    let plan = memsched::config::launch_plan(&cfg);
    let got: Vec<(bool, String)> = plan
        .into_iter()
        .map(|(k, p)| (matches!(k, ModuleKind::Wasm32Wasi), p))
        .collect();
    assert_eq!(
        got,
        vec![
            (true, "a.wasm".to_string()),
            (true, "a.wasm".to_string()),
            (false, "/bin/b".to_string()),
        ]
    );
    assert_eq!(Cli::default().config, "run.toml");
}

#[test]
fn metric_rows_render_their_ids() {
    let m = InstanceMemoryMetrics {
        timestamp: "2022-01-01T00:00:00+00:00".to_string(),
        worker_id: WorkerId::new(0),
        instance_id: InstanceId::new(31),
        memory_usage: 512,
    };
    let d = InstanceMemoryMetricsData::from_metrics(&m);
    assert_eq!(d.timestamp, m.timestamp);
    assert_eq!(d.worker_id, "00000000000000000000000000");
    assert_eq!(d.instance_id, "0000000000000000000000000Z");
    assert_eq!(d.memory_usage, 512);
}

#[test]
fn instance_invocation_carries_the_port() {
    let man = WorkerManifest {
        instance_manifest: InstanceManifest {
            args: vec!["--dir".to_string(), ".:/static".to_string()],
            port: 1234,
        },
    };
    let (prog, args, env) = build_instance_invocation(&man.instance_manifest);
    assert_eq!(prog, "wasmedge");
    assert_eq!(args, vec!["--dir".to_string(), ".:/static".to_string()]);
    assert_eq!(env, ("PORT".to_string(), "1234".to_string()));
}

#[test]
fn metric_paths_and_lines() {
    assert_eq!(smaps_path(Pid(42)), "/proc/42/smaps");
    assert_eq!(csv_line("2022-01-01T00:00:00", 42), "2022-01-01T00:00:00,42\n");
}
