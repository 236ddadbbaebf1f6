//! The compiler invocations of the fat and the thin build, as plain values.
//!
//! Both run the compiler under the interception: the driver stands in for
//! the linker, and the environment tells it where to write what it sees.

use crate::argv::{push_all, push_range, push_text, Pattern};
use crate::capture::{pairs, push_pair, CaptureError, RustcArgs};
use crate::context::Context;
use crate::target::OperatingSystem;
use crate::text::{concat2, texts};
use vstd::prelude::*;

verus! {

/// A process to run: the program, where, with which environment and
/// arguments.
#[derive(Debug)]
pub struct CommandPlan {
    pub program: String,
    pub working_dir: String,
    /// Whether the process starts from an empty environment instead of the
    /// caller's.
    pub clear_env: bool,
    /// The variables to set, in this order.
    pub envs: Vec<(String, String)>,
    pub args: Vec<String>,
}

/// The texts of `parts` in a row, with `sep` between each two.
pub open spec fn joined_with(parts: Seq<Seq<char>>, sep: Seq<char>) -> Seq<char>
    decreases parts.len(),
{
    if parts.len() == 0 {
        Seq::empty()
    } else if parts.len() == 1 {
        parts[0]
    } else {
        joined_with(parts.drop_last(), sep) + sep + parts.last()
    }
}

/// Writes the strings of `parts` in a row, with `sep` between each two.
pub fn join_with(parts: &Vec<String>, sep: &str) -> (out: String)
    ensures
        out@ == joined_with(texts(parts@), sep@),
{
    let mut out = String::new();
    let mut i: usize = 0;
    while i < parts.len()
        invariant
            i <= parts.len(),
            out@ == joined_with(texts(parts@).take(i as int), sep@),
        decreases parts.len() - i,
    {
        let ghost before = texts(parts@).take(i as int);
        let ghost now = texts(parts@).take(i + 1);
        assert(now.drop_last() =~= before);
        if i > 0 {
            out.append(sep);
        }
        out.append(parts[i].as_str());
        assert(out@ =~= joined_with(now, sep@));
        i += 1;
    }
    assert(texts(parts@).take(parts.len() as int) =~= texts(parts@));
    out
}

/// A compiler flag as `RUSTFLAGS` carries it: a flag that begins with `cfg`
/// gets `--` in front.
pub open spec fn rust_flag(flag: Seq<char>) -> Seq<char> {
    if "cfg"@.is_prefix_of(flag) {
        "--"@ + flag
    } else {
        flag
    }
}

/// The value of `RUSTFLAGS`: the flags with a space between each two, and
/// for WebAssembly the baseline CPU after them.
pub open spec fn rust_flags_value(flags: Seq<Seq<char>>, wasm: bool) -> Seq<char> {
    let all = flags.map_values(|f: Seq<char>| rust_flag(f));
    joined_with(
        if wasm {
            all.push("-Ctarget-cpu=mvp"@)
        } else {
            all
        },
        " "@,
    )
}

/// The variables that switch the interception on.
pub open spec fn interception_envs(ctx: Context) -> Seq<(Seq<char>, Seq<char>)> {
    seq![
        ("DX_LINK"@, "1"@),
        ("DX_LINK_ARGS_FILE"@, ctx.link_args_file@),
        ("DX_LINK_ERR_FILE"@, ctx.link_err_file@),
        ("DX_LINK_TRIPLE"@, ctx.triple.name@),
    ]
}

/// The environment of the fat build.
pub open spec fn fat_envs(ctx: Context, driver: Seq<char>) -> Seq<(Seq<char>, Seq<char>)> {
    seq![("DX_RUSTC"@, ctx.rustc_wrapper_file@), ("RUSTC_WRAPPER"@, driver)] + interception_envs(
        ctx,
    ) + if ctx.rust_flags@.len() > 0 {
        seq![("RUSTFLAGS"@, rust_flags_value(texts(ctx.rust_flags@), ctx.triple.wasm()))]
    } else {
        Seq::empty()
    }
}

/// `cargo rustc` on the package, for the profile and the target.
pub open spec fn fat_package(ctx: Context) -> Seq<Seq<char>> {
    seq![
        "rustc"@,
        "--profile"@,
        ctx.profile_name@,
        "-p"@,
        ctx.package@,
        "--target"@,
        ctx.triple.name@,
    ]
}

/// The arguments that name the artifact and its features.
pub open spec fn fat_artifact(ctx: Context) -> Seq<Seq<char>> {
    (if ctx.no_default_features {
        seq!["--no-default-features"@]
    } else {
        Seq::empty()
    }) + (match ctx.bin {
        Some(name) => seq!["--bin"@, name@],
        None => Seq::empty(),
    }) + (if ctx.lib {
        seq!["--lib"@]
    } else {
        Seq::empty()
    }) + (if ctx.features@.len() > 0 {
        seq!["--features"@] + texts(ctx.features@)
    } else {
        Seq::empty()
    })
}

/// The arguments for the compiler that every fat build has: the driver as
/// linker, the run paths on Linux, and the temporaries kept.
pub open spec fn fat_linkage(ctx: Context, driver: Seq<char>) -> Seq<Seq<char>> {
    seq!["--"@, "-Clinker="@ + driver] + (if ctx.triple.operating_system == OperatingSystem::Linux {
        seq!["-Clink-arg=-Wl,-rpath,$ORIGIN/../lib"@, "-Clink-arg=-Wl,-rpath,$ORIGIN"@]
    } else {
        Seq::empty()
    }) + seq!["-Csave-temps=true"@, "-Clink-dead-code"@]
}

/// The arguments for the compiler that a WebAssembly fat build adds.
pub open spec fn fat_wasm(ctx: Context) -> Seq<Seq<char>> {
    if ctx.triple.wasm() {
        seq![
            "-Ctarget-cpu=mvp"@,
            "-Clink-arg=--no-gc-sections"@,
            "-Clink-arg=--growable-table"@,
            "-Clink-arg=--export-table"@,
            "-Clink-arg=--export-memory"@,
            "-Clink-arg=--emit-relocs"@,
            "-Clink-arg=--export=__stack_pointer"@,
            "-Clink-arg=--export=__heap_base"@,
            "-Clink-arg=--export=__data_end"@,
        ]
    } else {
        Seq::empty()
    }
}

/// The arguments of the fat build.
pub open spec fn fat_args(ctx: Context, driver: Seq<char>) -> Seq<Seq<char>> {
    fat_package(ctx) + fat_artifact(ctx) + fat_linkage(ctx, driver) + fat_wasm(ctx)
}

/// The value of `RUSTFLAGS` for the context.
fn rust_flags_text(flags: &Vec<String>, wasm: bool) -> (out: String)
    ensures
        out@ == rust_flags_value(texts(flags@), wasm),
{
    let mut all: Vec<String> = Vec::new();
    let mut i: usize = 0;
    while i < flags.len()
        invariant
            i <= flags.len(),
            texts(all@) =~= texts(flags@).map_values(|f: Seq<char>| rust_flag(f)).take(i as int),
        decreases flags.len() - i,
    {
        let flag = flags[i].as_str();
        if Pattern::Prefix("cfg").test(flag) {
            let dashed = concat2("--", flag);
            push_text(&mut all, dashed.as_str());
        } else {
            push_text(&mut all, flag);
        }
        i += 1;
    }
    assert(texts(all@) =~= texts(flags@).map_values(|f: Seq<char>| rust_flag(f)));
    if wasm {
        push_text(&mut all, "-Ctarget-cpu=mvp");
    }
    join_with(&all, " ")
}

/// Appends the variables that switch the interception on.
fn push_interception(out: &mut Vec<(String, String)>, ctx: &Context)
    ensures
        pairs(final(out)@) == pairs(old(out)@) + interception_envs(*ctx),
{
    push_pair(out, "DX_LINK", "1");
    push_pair(out, "DX_LINK_ARGS_FILE", ctx.link_args_file.as_str());
    push_pair(out, "DX_LINK_ERR_FILE", ctx.link_err_file.as_str());
    push_pair(out, "DX_LINK_TRIPLE", ctx.triple.name.as_str());
    assert(pairs(out@) =~= pairs(old(out)@) + interception_envs(*ctx));
}

/// Appends `cargo rustc` on the package.
fn push_package(out: &mut Vec<String>, ctx: &Context)
    ensures
        texts(final(out)@) == texts(old(out)@) + fat_package(*ctx),
{
    push_text(out, "rustc");
    push_text(out, "--profile");
    push_text(out, ctx.profile_name.as_str());
    push_text(out, "-p");
    push_text(out, ctx.package.as_str());
    push_text(out, "--target");
    push_text(out, ctx.triple.name.as_str());
    assert(texts(out@) =~= texts(old(out)@) + fat_package(*ctx));
}

/// Appends the arguments that name the artifact and its features.
fn push_artifact(out: &mut Vec<String>, ctx: &Context)
    ensures
        texts(final(out)@) == texts(old(out)@) + fat_artifact(*ctx),
{
    if ctx.no_default_features {
        push_text(out, "--no-default-features");
    }
    match &ctx.bin {
        Some(name) => {
            push_text(out, "--bin");
            push_text(out, name.as_str());
        },
        None => {},
    }
    if ctx.lib {
        push_text(out, "--lib");
    }
    if ctx.features.len() > 0 {
        push_text(out, "--features");
        push_all(out, &ctx.features);
    }
    assert(texts(out@) =~= texts(old(out)@) + fat_artifact(*ctx));
}

/// Appends the arguments for the compiler that every fat build has.
fn push_linkage(out: &mut Vec<String>, ctx: &Context, driver: &str)
    ensures
        texts(final(out)@) == texts(old(out)@) + fat_linkage(*ctx, driver@),
{
    push_text(out, "--");
    let linker = concat2("-Clinker=", driver);
    push_text(out, linker.as_str());
    if ctx.triple.operating_system == OperatingSystem::Linux {
        push_text(out, "-Clink-arg=-Wl,-rpath,$ORIGIN/../lib");
        push_text(out, "-Clink-arg=-Wl,-rpath,$ORIGIN");
    }
    push_text(out, "-Csave-temps=true");
    push_text(out, "-Clink-dead-code");
    assert(texts(out@) =~= texts(old(out)@) + fat_linkage(*ctx, driver@));
}

/// Appends the arguments for the compiler that a WebAssembly fat build adds.
fn push_wasm(out: &mut Vec<String>, ctx: &Context)
    ensures
        texts(final(out)@) == texts(old(out)@) + fat_wasm(*ctx),
{
    if ctx.triple.is_wasm_or_wasi() {
        push_text(out, "-Ctarget-cpu=mvp");
        push_text(out, "-Clink-arg=--no-gc-sections");
        push_text(out, "-Clink-arg=--growable-table");
        push_text(out, "-Clink-arg=--export-table");
        push_text(out, "-Clink-arg=--export-memory");
        push_text(out, "-Clink-arg=--emit-relocs");
        push_text(out, "-Clink-arg=--export=__stack_pointer");
        push_text(out, "-Clink-arg=--export=__heap_base");
        push_text(out, "-Clink-arg=--export=__data_end");
    }
    assert(texts(out@) =~= texts(old(out)@) + fat_wasm(*ctx));
}

/// The environment of the fat build.
fn fat_environment(ctx: &Context, driver: &str) -> (envs: Vec<(String, String)>)
    ensures
        pairs(envs@) == fat_envs(*ctx, driver@),
{
    let mut envs: Vec<(String, String)> = Vec::new();
    push_pair(&mut envs, "DX_RUSTC", ctx.rustc_wrapper_file.as_str());
    push_pair(&mut envs, "RUSTC_WRAPPER", driver);
    push_interception(&mut envs, ctx);
    if ctx.rust_flags.len() > 0 {
        let value = rust_flags_text(&ctx.rust_flags, ctx.triple.is_wasm_or_wasi());
        push_pair(&mut envs, "RUSTFLAGS", value.as_str());
    }
    assert(pairs(envs@) =~= fat_envs(*ctx, driver@));
    envs
}

/// The fat build: `cargo rustc` on the package, with `driver` as the
/// compiler's wrapper and linker.
pub fn build_fat_command(ctx: &Context, driver: &str) -> (plan: CommandPlan)
    ensures
        plan.program@ == "cargo"@,
        plan.working_dir@ == ctx.working_dir@,
        !plan.clear_env,
        pairs(plan.envs@) == fat_envs(*ctx, driver@),
        texts(plan.args@) == fat_args(*ctx, driver@),
{
    let envs = fat_environment(ctx, driver);
    let mut args: Vec<String> = Vec::new();
    push_package(&mut args, ctx);
    push_artifact(&mut args, ctx);
    push_linkage(&mut args, ctx, driver);
    push_wasm(&mut args, ctx);
    assert(texts(args@) =~= fat_args(*ctx, driver@));
    CommandPlan {
        program: "cargo".to_owned(),
        working_dir: ctx.working_dir.clone(),
        clear_env: false,
        envs,
        args,
    }
}

/// `name` is a variable that the thin build clears.
pub open spec fn is_cleared(name: Seq<char>) -> bool {
    name == "RUSTC_WORKSPACE_WRAPPER"@ || name == "RUSTC_WRAPPER"@ || name == "DX_RUSTC"@
}

/// The first `upto` captured variables without those that the thin build
/// clears.
pub open spec fn carried_envs_upto(envs: Seq<(Seq<char>, Seq<char>)>, upto: int) -> Seq<
    (Seq<char>, Seq<char>),
>
    decreases upto,
{
    if upto <= 0 {
        Seq::empty()
    } else if is_cleared(envs[upto - 1].0) {
        carried_envs_upto(envs, upto - 1)
    } else {
        carried_envs_upto(envs, upto - 1).push(envs[upto - 1])
    }
}

/// The environment of the thin build: the interception's variables, then
/// what was captured, without the variables that the thin build clears.
pub open spec fn thin_envs(ctx: Context, captured: Seq<(Seq<char>, Seq<char>)>) -> Seq<
    (Seq<char>, Seq<char>),
> {
    interception_envs(ctx) + carried_envs_upto(captured, captured.len() as int)
}

/// The arguments of the thin build: those captured, without the driver's
/// name, then the driver as linker and, for WebAssembly, position
/// independent code.
pub open spec fn thin_compiler_args(ctx: Context, captured: Seq<Seq<char>>, driver: Seq<char>) -> Seq<
    Seq<char>,
> {
    captured.skip(1) + seq!["-Clinker="@ + driver] + if ctx.triple.wasm() {
        seq!["-Crelocation-model=pic"@]
    } else {
        Seq::empty()
    }
}

/// The thin build: the captured compiler invocation once more, from an
/// empty environment, with `driver` as the linker.
pub fn build_thin_command(ctx: &Context, rustc_args: &RustcArgs, driver: &str) -> (out: Result<
    CommandPlan,
    CaptureError,
>)
    ensures
        match out {
            Ok(plan) => {
                &&& rustc_args.args@.len() > 0
                &&& plan.program@ == "rustc"@
                &&& plan.working_dir@ == ctx.working_dir@
                &&& plan.clear_env
                &&& pairs(plan.envs@) == thin_envs(*ctx, pairs(rustc_args.envs@))
                &&& texts(plan.args@) == thin_compiler_args(*ctx, texts(rustc_args.args@), driver@)
            },
            Err(e) => rustc_args.args@.len() == 0 && e == CaptureError::NoArguments,
        },
{
    if rustc_args.args.len() == 0 {
        return Err(CaptureError::NoArguments);
    }
    let mut args: Vec<String> = Vec::new();
    push_range(&mut args, &rustc_args.args, 1, rustc_args.args.len());
    let linker = concat2("-Clinker=", driver);
    push_text(&mut args, linker.as_str());
    if ctx.triple.is_wasm_or_wasi() {
        push_text(&mut args, "-Crelocation-model=pic");
    }
    assert(texts(args@) =~= thin_compiler_args(*ctx, texts(rustc_args.args@), driver@));

    let mut envs: Vec<(String, String)> = Vec::new();
    push_interception(&mut envs, ctx);
    assert(pairs(envs@) =~= interception_envs(*ctx));
    let mut i: usize = 0;
    while i < rustc_args.envs.len()
        invariant
            i <= rustc_args.envs.len(),
            pairs(envs@) =~= interception_envs(*ctx) + carried_envs_upto(
                pairs(rustc_args.envs@),
                i as int,
            ),
        decreases rustc_args.envs.len() - i,
    {
        let name = rustc_args.envs[i].0.as_str();
        let cleared = Pattern::Is("RUSTC_WORKSPACE_WRAPPER").test(name) || Pattern::Is(
            "RUSTC_WRAPPER",
        ).test(name) || Pattern::Is("DX_RUSTC").test(name);
        if !cleared {
            push_pair(&mut envs, name, rustc_args.envs[i].1.as_str());
        }
        i += 1;
    }
    Ok(
        CommandPlan {
            program: "rustc".to_owned(),
            working_dir: ctx.working_dir.clone(),
            clear_env: true,
            envs,
            args,
        },
    )
}

} // verus!
