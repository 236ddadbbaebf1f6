use hotpatch::target::{
    Architecture, Environment, LinkerFlavor, OperatingSystem, TargetTriple,
};

#[test]
fn linux_gnu_is_the_gnu_flavor() {
    let t = TargetTriple::parse("x86_64-unknown-linux-gnu").unwrap();
    assert_eq!(t.name, "x86_64-unknown-linux-gnu");
    assert_eq!(t.architecture, Architecture::Other);
    assert_eq!(t.operating_system, OperatingSystem::Linux);
    assert_eq!(t.environment, Environment::Gnu);
    assert_eq!(t.linker_flavor(), LinkerFlavor::Gnu);
    assert!(!t.is_wasm_or_wasi());
    assert!(!t.is_windows());
}

#[test]
fn wasm32_is_the_wasm_flavor() {
    let t = TargetTriple::parse("wasm32-unknown-unknown").unwrap();
    assert_eq!(t.name, "wasm32-unknown-unknown");
    assert_eq!(t.architecture, Architecture::Wasm32);
    assert_eq!(t.operating_system, OperatingSystem::Other);
    assert_eq!(t.environment, Environment::Other);
    assert_eq!(t.linker_flavor(), LinkerFlavor::WasmLld);
    assert!(t.is_wasm_or_wasi());
}

#[test]
fn wasi_counts_as_wasm() {
    let t = TargetTriple::parse("wasm32-wasi").unwrap();
    assert_eq!(t.operating_system, OperatingSystem::Wasi);
    assert!(t.is_wasm_or_wasi());
    assert_eq!(t.linker_flavor(), LinkerFlavor::WasmLld);
}

#[test]
fn linux_musl_is_gnu_by_its_operating_system() {
    let t = TargetTriple::parse("aarch64-unknown-linux-musl").unwrap();
    assert_eq!(t.environment, Environment::Other);
    assert_eq!(t.operating_system, OperatingSystem::Linux);
    assert_eq!(t.linker_flavor(), LinkerFlavor::Gnu);
}

#[test]
fn windows_gnu_is_gnu_by_its_environment() {
    let t = TargetTriple::parse("x86_64-pc-windows-gnu").unwrap();
    assert_eq!(t.environment, Environment::Gnu);
    assert_eq!(t.operating_system, OperatingSystem::Windows);
    assert!(t.is_windows());
    assert_eq!(t.linker_flavor(), LinkerFlavor::Gnu);
}

#[test]
fn apple_targets_are_the_darwin_flavor() {
    for text in ["aarch64-apple-darwin", "x86_64-apple-darwin", "aarch64-apple-ios", "aarch64-apple-tvos"] {
        let t = TargetTriple::parse(text).unwrap();
        assert_eq!(t.operating_system, OperatingSystem::Apple);
        assert_eq!(t.linker_flavor(), LinkerFlavor::Darwin);
        assert!(!t.is_windows());
        assert!(!t.is_wasm_or_wasi());
    }
}

#[test]
fn windows_msvc_is_the_msvc_flavor() {
    let msvc = TargetTriple::parse("x86_64-pc-windows-msvc").unwrap();
    assert_eq!(msvc.environment, Environment::Msvc);
    assert_eq!(msvc.operating_system, OperatingSystem::Windows);
    assert_eq!(msvc.linker_flavor(), LinkerFlavor::Msvc);
    assert!(msvc.is_windows());
}

#[test]
fn other_targets_are_unsupported() {
    let bsd = TargetTriple::parse("x86_64-unknown-freebsd").unwrap();
    assert_eq!(bsd.linker_flavor(), LinkerFlavor::Unsupported);
    let by_parts = TargetTriple::from_parts(
        Some("x".to_string()),
        Some(Architecture::Other),
        Some(OperatingSystem::Other),
        Some(Environment::Msvc),
    )
    .unwrap();
    assert_eq!(by_parts.linker_flavor(), LinkerFlavor::Unsupported);
}

#[test]
fn a_text_that_is_no_triple_is_rejected() {
    assert!(TargetTriple::parse("not a triple").is_none());
    assert!(TargetTriple::parse("").is_none());
}

#[test]
fn from_parts_needs_every_part() {
    let whole = TargetTriple::from_parts(
        Some("wasm64-unknown-unknown".to_string()),
        Some(Architecture::Wasm64),
        Some(OperatingSystem::Other),
        Some(Environment::Other),
    )
    .unwrap();
    assert_eq!(whole.name, "wasm64-unknown-unknown");
    assert_eq!(whole.linker_flavor(), LinkerFlavor::WasmLld);
    assert!(TargetTriple::from_parts(
        None,
        Some(Architecture::Wasm64),
        Some(OperatingSystem::Other),
        Some(Environment::Other)
    )
    .is_none());
    assert!(TargetTriple::from_parts(
        Some("x".to_string()),
        Some(Architecture::Wasm64),
        Some(OperatingSystem::Other),
        None
    )
    .is_none());
}

#[test]
fn the_name_is_the_canonical_text() {
    let t = TargetTriple::parse("x86_64-linux-gnu").unwrap();
    assert_eq!(t.name, "x86_64-unknown-linux-gnu");
    assert_eq!(t.operating_system, OperatingSystem::Linux);
    assert_eq!(t.environment, Environment::Gnu);
}
