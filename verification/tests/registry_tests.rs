use memsched::config::ModuleKind;
use memsched::registry::{to_key, InstanceRegisterEntry, RegistryModel, EXPIRE_SEC};
use memsched::status::InstanceStatus;
use memsched::supervisor::InstanceSpec;
use memsched::Module;

fn sample_spec() -> InstanceSpec {
    let module = Module::new(ModuleKind::Wasm32Wasi, "/srv/app.wasm".to_string(), &b"abc".to_vec());
    InstanceSpec::new(module, Vec::new())
}

#[test]
fn entry_projects_the_spec() {
    let spec = sample_spec();
    let e = InstanceRegisterEntry::from_spec_at(&spec, "2022-01-01T00:00:00+00:00".to_string());
    assert_eq!(e.module_id, spec.module.digest);
    assert_eq!(e.path, "/srv/app.wasm");
    assert_eq!(e.instance_id.len(), 36);
    assert!(matches!(e.status, InstanceStatus::Starting));
    assert_eq!(e.created_at, "2022-01-01T00:00:00+00:00");
}

#[test]
fn entry_from_spec_takes_the_clock() {
    let spec = sample_spec();
    let e = InstanceRegisterEntry::from_spec(&spec);
    assert_eq!(e.module_id, spec.module.digest);
    assert!(matches!(e.status, InstanceStatus::Starting));
    // An RFC 3339 stamp carries at least a full date and time.
    assert!(e.created_at.len() >= 19);
}

#[test]
fn entry_fields_in_wire_order() {
    let e = InstanceRegisterEntry::new(
        "digest".to_string(),
        "/srv/app.wasm".to_string(),
        "00000000-0000-0000-0000-000000000007".to_string(),
        InstanceStatus::Running,
        "2022-01-01T00:00:00+00:00".to_string(),
    );
    let pairs = e.into_vec_tup();
    assert_eq!(
        pairs,
        vec![
            ("module_id".to_string(), "digest".to_string()),
            ("module_path".to_string(), "/srv/app.wasm".to_string()),
            (
                "instance_id".to_string(),
                "00000000-0000-0000-0000-000000000007".to_string()
            ),
            ("status".to_string(), "running".to_string()),
            ("created_at".to_string(), "2022-01-01T00:00:00+00:00".to_string()),
        ]
    );
}

#[test]
fn keys_carry_the_fixed_prefix() {
    assert_eq!(to_key(7), "instance:00000000-0000-0000-0000-000000000007");
}

#[test]
fn registry_round_trip_with_expiry_window() {
    let spec = sample_spec();
    let uid = spec.uid;
    let entry = InstanceRegisterEntry::from_spec_at(&spec, "t0".to_string());

    let mut m = RegistryModel::new();
    assert!(!m.exists_at(uid, 0));

    m.register(uid, entry);
    assert!(m.exists_at(uid, 0));
    assert_eq!(m.get_status(uid, 0), Some(InstanceStatus::Starting));

    assert!(m.update_status(uid, InstanceStatus::Quit));
    assert_eq!(m.get_status(uid, 0), Some(InstanceStatus::Quit));

    let t = 100u64;
    assert!(m.expire(uid, t));
    assert!(m.exists_at(uid, t));
    assert!(m.exists_at(uid, t + EXPIRE_SEC - 1));
    assert_eq!(m.get_status(uid, t + EXPIRE_SEC - 1), Some(InstanceStatus::Quit));
    assert!(!m.exists_at(uid, t + EXPIRE_SEC));
    assert_eq!(m.get_status(uid, t + EXPIRE_SEC), None);
}

#[test]
fn missing_keys_report_not_found() {
    let mut m = RegistryModel::new();
    assert!(!m.update_status(9, InstanceStatus::Running));
    assert!(!m.expire(9, 0));
    assert_eq!(m.get_status(9, 0), None);
}
