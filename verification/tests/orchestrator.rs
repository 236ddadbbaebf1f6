use hotpatch::capture::{lines, CaptureError, RustcArgs};
use hotpatch::orchestrator::{
    is_stale_fingerprint, read_input, Action, BuildKind, Command, Input, Orchestrator, Outcome,
    Phase, Rejection,
};

fn strings(v: &[&str]) -> Vec<String> {
    v.iter().map(|s| s.to_string()).collect()
}

#[test]
fn a_fat_build_makes_the_orchestrator_ready() {
    let mut o = Orchestrator::new(false);
    assert_eq!(o.phase, Phase::Idle);
    assert!(!o.has_cache);
    assert_eq!(o.on_command(Command::Fat, 0), Action::StartFat);
    assert_eq!(o.phase, Phase::Building(BuildKind::Fat));
    assert_eq!(o.on_finished(true), Outcome::Launch);
    assert_eq!(o.phase, Phase::Ready);
    assert!(o.has_cache);
}

#[test]
fn a_thin_build_publishes() {
    let mut o = Orchestrator { phase: Phase::Ready, has_cache: true, wasm: false };
    assert_eq!(o.on_command(Command::Thin, 0xDEADBEEF000), Action::StartThin(0xDEADBEEF000));
    assert_eq!(o.phase, Phase::Building(BuildKind::Thin));
    assert_eq!(o.on_finished(true), Outcome::Publish);
    assert_eq!(o.phase, Phase::Ready);
    assert!(o.has_cache);
}

#[test]
fn a_thin_build_without_reference_is_rejected_off_wasm() {
    let mut o = Orchestrator { phase: Phase::Ready, has_cache: true, wasm: false };
    assert_eq!(o.on_command(Command::Thin, 0), Action::Reject(Rejection::NoAslrReference));
    assert_eq!(o, Orchestrator { phase: Phase::Ready, has_cache: true, wasm: false });
    assert_eq!(
        Rejection::NoAslrReference.message(),
        "Thin build canceled, aslr reference is 0 on non-wasm build!"
    );
    let mut web = Orchestrator { phase: Phase::Ready, has_cache: true, wasm: true };
    assert_eq!(web.on_command(Command::Thin, 0), Action::StartThin(0));
}

#[test]
fn the_missing_reference_is_named_before_the_missing_fat_build() {
    let mut o = Orchestrator::new(false);
    assert_eq!(o.on_command(Command::Thin, 0), Action::Reject(Rejection::NoAslrReference));
    assert_eq!(o, Orchestrator::new(false));
    let mut web = Orchestrator::new(true);
    assert_eq!(web.on_command(Command::Thin, 0), Action::Reject(Rejection::NoFatBuild));
}

#[test]
fn a_thin_build_without_fat_build_is_rejected() {
    let mut o = Orchestrator::new(true);
    assert_eq!(o.on_command(Command::Thin, 5), Action::Reject(Rejection::NoFatBuild));
    assert_eq!(o.phase, Phase::Idle);
    let mut failed = Orchestrator::new(false);
    assert_eq!(failed.on_command(Command::Fat, 0), Action::StartFat);
    assert_eq!(failed.on_finished(false), Outcome::Nothing);
    assert_eq!(failed.phase, Phase::Ready);
    assert_eq!(failed.on_command(Command::Thin, 5), Action::Reject(Rejection::NoFatBuild));
}

#[test]
fn a_rebuild_clears_the_patches_first() {
    let mut o = Orchestrator { phase: Phase::Ready, has_cache: true, wasm: false };
    assert_eq!(o.on_command(Command::FatRebuild, 7), Action::ClearThenStartFat);
    assert_eq!(o.phase, Phase::Building(BuildKind::Fat));
    assert_eq!(o.on_finished(true), Outcome::Launch);
    assert_eq!(o.on_command(Command::Thin, 7), Action::StartThin(7));
}

#[test]
fn a_failed_build_keeps_what_was_there() {
    let mut o = Orchestrator { phase: Phase::Ready, has_cache: true, wasm: false };
    assert_eq!(o.on_command(Command::Thin, 7), Action::StartThin(7));
    assert_eq!(o.on_finished(false), Outcome::Nothing);
    assert_eq!(o, Orchestrator { phase: Phase::Ready, has_cache: true, wasm: false });
    assert_eq!(o.on_command(Command::FatRebuild, 7), Action::ClearThenStartFat);
    assert_eq!(o.on_finished(false), Outcome::Nothing);
    assert_eq!(o, Orchestrator { phase: Phase::Ready, has_cache: true, wasm: false });
}

#[test]
fn commands_wait_while_a_build_runs() {
    let mut o = Orchestrator { phase: Phase::Building(BuildKind::Thin), has_cache: true, wasm: false };
    assert_eq!(o.on_command(Command::Thin, 7), Action::Wait);
    assert_eq!(o.on_command(Command::Fat, 7), Action::Wait);
    assert_eq!(o.on_command(Command::FatRebuild, 7), Action::Wait);
    assert_eq!(o.phase, Phase::Building(BuildKind::Thin));
}

#[test]
fn nothing_ends_where_nothing_runs() {
    let mut o = Orchestrator::new(false);
    assert_eq!(o.on_finished(true), Outcome::Nothing);
    assert_eq!(o, Orchestrator::new(false));
}

#[test]
fn input_lines_are_one_key_each() {
    assert_eq!(read_input("r\n"), Some(Input::Reload));
    assert_eq!(read_input("R\n"), Some(Input::Rebuild));
    assert_eq!(read_input("  e \r\n"), Some(Input::Exit));
    assert_eq!(read_input("r"), Some(Input::Reload));
    assert_eq!(read_input("\u{a0}r\u{3000}"), Some(Input::Reload));
    assert_eq!(read_input(""), None);
    assert_eq!(read_input("\n"), None);
    assert_eq!(read_input("rr\n"), None);
    assert_eq!(read_input("r e\n"), None);
    assert_eq!(read_input("x\n"), None);
    assert_eq!(read_input("E\n"), None);
}

#[test]
fn fingerprints_belong_to_a_package_by_name() {
    assert!(is_stale_fingerprint("demo-0123456789abcdef", "demo"));
    assert!(is_stale_fingerprint("my-demo-0123456789abcdef", "my-demo"));
    assert!(!is_stale_fingerprint("my-demo-0123456789abcdef", "my"));
    assert!(!is_stale_fingerprint("demo", "demo"));
    assert!(!is_stale_fingerprint("demo2-0123", "demo"));
    assert!(is_stale_fingerprint("demo-", "demo"));
    assert!(is_stale_fingerprint("-x", ""));
}

#[test]
fn lines_end_at_line_feeds() {
    assert_eq!(lines("cc\n/t/a.rcgu.o\n-o\n/t/demo"), strings(&["cc", "/t/a.rcgu.o", "-o", "/t/demo"]));
    assert_eq!(lines("cc\n-lc\n"), strings(&["cc", "-lc"]));
    assert_eq!(lines("a\r\nb\r\n"), strings(&["a", "b"]));
    assert_eq!(lines("a\n\nb"), strings(&["a", "", "b"]));
    assert_eq!(lines("a\rb\r"), strings(&["a\rb\r"]));
    assert_eq!(lines(""), Vec::<String>::new());
    assert_eq!(lines("\n"), strings(&[""]));
    for text in ["x\ny\r\n\r\nz\r", "\r\n", "one", "a\n\r", "é\nü\n"] {
        let expected: Vec<String> = text.lines().map(|l| l.to_string()).collect();
        assert_eq!(lines(text), expected);
    }
}

#[test]
fn a_capture_needs_both_argument_lists() {
    let mut captured = RustcArgs::default();
    assert!(captured.args.is_empty() && captured.envs.is_empty() && captured.link_args.is_empty());
    assert_eq!(captured.check(), Err(CaptureError::NoArguments));
    captured.args = strings(&["rustc"]);
    assert_eq!(captured.check(), Err(CaptureError::NoLinkerArguments));
    captured.link_args = strings(&["cc"]);
    assert_eq!(captured.check(), Ok(()));
}
