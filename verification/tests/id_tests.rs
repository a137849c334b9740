use memsched::config::ModuleKind;
use memsched::digest::digest_string;
use memsched::ids::{crockford_string, uuid_string, InstanceId, WorkerId};
use memsched::supervisor::InstanceSpec;
use memsched::Module;

#[test]
fn test_instance_id_to_string() {
    let id = InstanceId::generate();
    assert_eq!(id.to_id_string().len(), 26);
}

#[test]
fn test_worker_id_to_string() {
    let id = WorkerId::generate();
    assert_eq!(id.to_id_string().len(), 26);
}

#[test]
fn crockford_rendering_known_values() {
    assert_eq!(crockford_string(0), "00000000000000000000000000");
    assert_eq!(crockford_string(1), "00000000000000000000000001");
    assert_eq!(crockford_string(31), "0000000000000000000000000Z");
    assert_eq!(InstanceId::new(32).to_id_string(), "00000000000000000000000010");
}

#[test]
fn uuid_rendering_known_values() {
    assert_eq!(uuid_string(0), "00000000-0000-0000-0000-000000000000");
    assert_eq!(
        uuid_string(0x123456789abcdef01122334455667788u128),
        "12345678-9abc-def0-1122-334455667788"
    );
}

#[test]
fn fresh_instance_ids_carry_the_version_nibble() {
    let module = Module::new(ModuleKind::Native, "/bin/true".to_string(), &Vec::new());
    let a = InstanceSpec::new(module.clone(), Vec::new());
    let b = InstanceSpec::new(module, Vec::new());
    assert_eq!((a.uid >> 76) & 0xf, 4);
    assert_eq!((b.uid >> 76) & 0xf, 4);
    assert_ne!(a.uid, b.uid);
}

#[test]
fn digest_of_known_inputs() {
    assert_eq!(
        digest_string(&Vec::new()),
        "e3b0c44298fc1c149afbf4c8996fb92427ae41e4649b934ca495991b7852b855"
    );
    assert_eq!(
        digest_string(&b"abc".to_vec()),
        "ba7816bf8f01cfea414140de5dae2223b00361a396177a9cb410ff61f20015ad"
    );
}

#[test]
fn module_keeps_its_identity() {
    let m = Module::new(ModuleKind::Wasm32Wasi, "/srv/app.wasm".to_string(), &b"abc".to_vec());
    assert!(matches!(m.kind, ModuleKind::Wasm32Wasi));
    assert_eq!(m.path, "/srv/app.wasm");
    assert_eq!(m.digest.len(), 64);
    assert_eq!(
        m.digest,
        "ba7816bf8f01cfea414140de5dae2223b00361a396177a9cb410ff61f20015ad"
    );
}
