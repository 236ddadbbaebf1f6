//! The thin link: a fresh argument list that links the changed objects into
//! a shared object.

use crate::argv::{
    find_first, first_admitted, push_all, push_text, select, selected, Pattern, Probe,
};
use crate::context::{patch_name, Context};
use crate::fat::output_directive;
use crate::paths::{base_name, file_name, join, joined};
use crate::target::{LinkerFlavor, OperatingSystem};
use crate::text::{concat2, occurs_in, texts};
use itertools::Itertools;
use vstd::prelude::*;

verus! {

/// Why no thin link line can be made.
#[derive(Clone, Copy, Debug, PartialEq, Eq, Structural)]
pub enum ThinLinkError {
    /// The flavor has no thin link.
    UnsupportedFlavor,
    /// A flag that takes a value is the last argument.
    FlagWithoutValue,
}

/// The arguments that every thin link of the flavor begins with.
pub open spec fn thin_prefix(flavor: LinkerFlavor) -> Seq<Seq<char>> {
    match flavor {
        LinkerFlavor::WasmLld => seq![
            "--fatal-warnings"@,
            "--import-memory"@,
            "--import-table"@,
            "--growable-table"@,
            "--export"@,
            "main"@,
            "--allow-undefined"@,
            "--no-demangle"@,
            "--no-entry"@,
            "--pie"@,
            "--experimental-pic"@,
        ],
        LinkerFlavor::Darwin => seq!["-Wl,-dylib"@],
        LinkerFlavor::Gnu => seq![
            "-shared"@,
            "-Wl,--eh-frame-hdr"@,
            "-Wl,-z,noexecstack"@,
            "-Wl,-z,relro,-z,now"@,
            "-nodefaultlibs"@,
            "-Wl,-Bdynamic"@,
        ],
        LinkerFlavor::Msvc => seq![
            "shlwapi.lib"@,
            "kernel32.lib"@,
            "advapi32.lib"@,
            "ntdll.lib"@,
            "userenv.lib"@,
            "ws2_32.lib"@,
            "dbghelp.lib"@,
            "/defaultlib:msvcrt"@,
            "/DLL"@,
            "/DEBUG"@,
            "/PDBALTPATH:%_PDB%"@,
            "/EXPORT:main"@,
            "/HIGHENTROPYVA:NO"@,
        ],
        LinkerFlavor::Unsupported => Seq::empty(),
    }
}

/// `a` is a flag of the captured link that is kept together with the
/// argument after it.
pub open spec fn takes_value(flavor: LinkerFlavor, a: Seq<char>) -> bool {
    match flavor {
        LinkerFlavor::WasmLld => a == "--export"@,
        LinkerFlavor::Darwin => a == "-framework"@ || a == "-arch"@ || a == "-L"@,
        LinkerFlavor::Gnu => a == "-L"@,
        _ => false,
    }
}

/// `a` is an argument of the captured link that is kept by itself.
pub open spec fn stays(flavor: LinkerFlavor, a: Seq<char>) -> bool {
    match flavor {
        LinkerFlavor::Darwin => "-l"@.is_prefix_of(a) || "-m"@.is_prefix_of(a),
        LinkerFlavor::Gnu => "-l"@.is_prefix_of(a) || "-m"@.is_prefix_of(a)
            || "-Wl,--target="@.is_prefix_of(a) || "-Wl,-fuse-ld"@.is_prefix_of(a)
            || "-fuse-ld"@.is_prefix_of(a) || occurs_in("-ld-path"@, a),
        _ => false,
    }
}

/// What the argument at `i` of the captured link hands on: itself and its
/// value where it takes one, then itself where it stays alone.
pub open spec fn handed_on(flavor: LinkerFlavor, args: Seq<Seq<char>>, i: int) -> Seq<Seq<char>> {
    let pair = if takes_value(flavor, args[i]) && i + 1 < args.len() {
        seq![args[i], args[i + 1]]
    } else {
        Seq::empty()
    };
    let lone = if stays(flavor, args[i]) {
        seq![args[i]]
    } else {
        Seq::empty()
    };
    pair + lone
}

/// What the first `upto` arguments of the captured link hand on, in order.
pub open spec fn preserved_upto(flavor: LinkerFlavor, args: Seq<Seq<char>>, upto: int) -> Seq<
    Seq<char>,
>
    decreases upto,
{
    if upto <= 0 {
        Seq::empty()
    } else {
        preserved_upto(flavor, args, upto - 1) + handed_on(flavor, args, upto - 1)
    }
}

/// The first `flag` of `args` with the argument after it; nothing where
/// `args` holds no `flag`.
pub open spec fn value_pair(args: Seq<Seq<char>>, flag: Seq<char>) -> Seq<Seq<char>> {
    let i = first_admitted(args, Probe::Is(flag));
    if i + 1 < args.len() {
        seq![flag, args[i + 1]]
    } else {
        Seq::empty()
    }
}

/// A flag whose value the thin link needs is the last argument.
pub open spec fn lacks_value(flavor: LinkerFlavor, args: Seq<Seq<char>>) -> bool {
    &&& args.len() > 0
    &&& (takes_value(flavor, args.last()) || first_admitted(args, Probe::Is("-target"@))
        == args.len() - 1 || first_admitted(args, Probe::Is("-isysroot"@)) == args.len() - 1)
}

/// The flags of the thin link: the flavor's fixed arguments, what the
/// captured link hands on, and its `-target` and `-isysroot`.
pub open spec fn thin_link_line(flavor: LinkerFlavor, args: Seq<Seq<char>>) -> Result<
    Seq<Seq<char>>,
    ThinLinkError,
> {
    if flavor == LinkerFlavor::Unsupported {
        Err(ThinLinkError::UnsupportedFlavor)
    } else if lacks_value(flavor, args) {
        Err(ThinLinkError::FlagWithoutValue)
    } else {
        Ok(
            thin_prefix(flavor) + preserved_upto(flavor, args, args.len() as int) + value_pair(
                args,
                "-target"@,
            ) + value_pair(args, "-isysroot"@),
        )
    }
}

/// Whether `a` is kept together with the argument after it.
fn is_value_flag(flavor: LinkerFlavor, a: &str) -> (r: bool)
    ensures
        r == takes_value(flavor, a@),
{
    match flavor {
        LinkerFlavor::WasmLld => Pattern::Is("--export").test(a),
        LinkerFlavor::Darwin => Pattern::Is("-framework").test(a) || Pattern::Is("-arch").test(a)
            || Pattern::Is("-L").test(a),
        LinkerFlavor::Gnu => Pattern::Is("-L").test(a),
        _ => false,
    }
}

/// Whether `a` is kept by itself.
fn is_lone_flag(flavor: LinkerFlavor, a: &str) -> (r: bool)
    ensures
        r == stays(flavor, a@),
{
    match flavor {
        LinkerFlavor::Darwin => Pattern::Prefix("-l").test(a) || Pattern::Prefix("-m").test(a),
        LinkerFlavor::Gnu => Pattern::Prefix("-l").test(a) || Pattern::Prefix("-m").test(a)
            || Pattern::Prefix("-Wl,--target=").test(a) || Pattern::Prefix("-Wl,-fuse-ld").test(a)
            || Pattern::Prefix("-fuse-ld").test(a) || Pattern::Infix("-ld-path").test(a),
        _ => false,
    }
}

/// Appends the flavor's fixed arguments.
fn push_prefix(out: &mut Vec<String>, flavor: LinkerFlavor)
    ensures
        texts(final(out)@) == texts(old(out)@) + thin_prefix(flavor),
{
    match flavor {
        LinkerFlavor::WasmLld => {
            push_text(out, "--fatal-warnings");
            push_text(out, "--import-memory");
            push_text(out, "--import-table");
            push_text(out, "--growable-table");
            push_text(out, "--export");
            push_text(out, "main");
            push_text(out, "--allow-undefined");
            push_text(out, "--no-demangle");
            push_text(out, "--no-entry");
            push_text(out, "--pie");
            push_text(out, "--experimental-pic");
        },
        LinkerFlavor::Darwin => {
            push_text(out, "-Wl,-dylib");
        },
        LinkerFlavor::Gnu => {
            push_text(out, "-shared");
            push_text(out, "-Wl,--eh-frame-hdr");
            push_text(out, "-Wl,-z,noexecstack");
            push_text(out, "-Wl,-z,relro,-z,now");
            push_text(out, "-nodefaultlibs");
            push_text(out, "-Wl,-Bdynamic");
        },
        LinkerFlavor::Msvc => {
            push_text(out, "shlwapi.lib");
            push_text(out, "kernel32.lib");
            push_text(out, "advapi32.lib");
            push_text(out, "ntdll.lib");
            push_text(out, "userenv.lib");
            push_text(out, "ws2_32.lib");
            push_text(out, "dbghelp.lib");
            push_text(out, "/defaultlib:msvcrt");
            push_text(out, "/DLL");
            push_text(out, "/DEBUG");
            push_text(out, "/PDBALTPATH:%_PDB%");
            push_text(out, "/EXPORT:main");
            push_text(out, "/HIGHENTROPYVA:NO");
        },
        LinkerFlavor::Unsupported => {},
    }
    assert(texts(out@) =~= texts(old(out)@) + thin_prefix(flavor));
}

/// Appends the first `flag` of `args` with its value, where `args` holds one.
fn push_value_pair(out: &mut Vec<String>, args: &Vec<String>, flag: &str)
    ensures
        texts(final(out)@) == texts(old(out)@) + value_pair(texts(args@), flag@),
{
    let i = find_first(args, &Pattern::Is(flag));
    if i < args.len() && i + 1 < args.len() {
        push_text(out, flag);
        push_text(out, args[i + 1].as_str());
    }
    assert(texts(out@) =~= texts(old(out)@) + value_pair(texts(args@), flag@));
}

/// Whether a flag whose value the thin link needs is the last argument.
fn wants_value(flavor: LinkerFlavor, args: &Vec<String>) -> (r: bool)
    ensures
        r == lacks_value(flavor, texts(args@)),
{
    if args.len() == 0 {
        return false;
    }
    let last = args.len() - 1;
    is_value_flag(flavor, args[last].as_str()) || find_first(args, &Pattern::Is("-target")) == last
        || find_first(args, &Pattern::Is("-isysroot")) == last
}

/// The flags of the thin link, made from the arguments of the captured link.
pub fn thin_link_args(flavor: LinkerFlavor, captured_args: &Vec<String>) -> (out: Result<
    Vec<String>,
    ThinLinkError,
>)
    ensures
        match out {
            Ok(v) => thin_link_line(flavor, texts(captured_args@)) == Ok::<
                Seq<Seq<char>>,
                ThinLinkError,
            >(texts(v@)),
            Err(e) => thin_link_line(flavor, texts(captured_args@)) == Err::<
                Seq<Seq<char>>,
                ThinLinkError,
            >(e),
        },
{
    if flavor == LinkerFlavor::Unsupported {
        return Err(ThinLinkError::UnsupportedFlavor);
    }
    if wants_value(flavor, captured_args) {
        return Err(ThinLinkError::FlagWithoutValue);
    }
    let mut out: Vec<String> = Vec::new();
    push_prefix(&mut out, flavor);
    assert(texts(out@) =~= thin_prefix(flavor));
    let mut i: usize = 0;
    while i < captured_args.len()
        invariant
            i <= captured_args.len(),
            texts(out@) =~= thin_prefix(flavor) + preserved_upto(
                flavor,
                texts(captured_args@),
                i as int,
            ),
        decreases captured_args.len() - i,
    {
        let a = captured_args[i].as_str();
        let ghost before = texts(out@);
        if is_value_flag(flavor, a) && i + 1 < captured_args.len() {
            push_text(&mut out, a);
            push_text(&mut out, captured_args[i + 1].as_str());
        }
        if is_lone_flag(flavor, a) {
            push_text(&mut out, a);
        }
        assert(texts(out@) =~= before + handed_on(flavor, texts(captured_args@), i as int));
        i += 1;
    }
    push_value_pair(&mut out, captured_args, "-target");
    push_value_pair(&mut out, captured_args, "-isysroot");
    Ok(out)
}

/// The value of the first `-o` of a captured link line: the artifact that
/// the compiler's own link left behind. `Ok(None)` where the line holds no
/// `-o`.
pub fn stale_output(args: &Vec<String>) -> (out: Result<Option<String>, ThinLinkError>)
    ensures
        ({
            let i = first_admitted(texts(args@), Probe::Is("-o"@));
            match out {
                Ok(None) => i == args@.len(),
                Ok(Some(path)) => i + 1 < args@.len() && path@ == texts(args@)[i + 1],
                Err(e) => i + 1 == args@.len() && e == ThinLinkError::FlagWithoutValue,
            }
        }),
{
    let i = find_first(args, &Pattern::Is("-o"));
    if i >= args.len() {
        Ok(None)
    } else if i + 1 >= args.len() {
        Err(ThinLinkError::FlagWithoutValue)
    } else {
        Ok(Some(args[i + 1].clone()))
    }
}

/// `a` comes before `b` or equals it, character by character in the order of
/// their code points; a text comes after each of its proper prefixes.
pub open spec fn text_le(a: Seq<char>, b: Seq<char>) -> bool
    decreases a.len(),
{
    if a.len() == 0 {
        true
    } else if b.len() == 0 {
        false
    } else if a[0] != b[0] {
        (a[0] as u32) < (b[0] as u32)
    } else {
        text_le(a.drop_first(), b.drop_first())
    }
}

/// Each text of `s` comes before the next or equals it.
pub open spec fn ascending(s: Seq<Seq<char>>) -> bool {
    forall|i: int, j: int| 0 <= i < j < s.len() ==> text_le(s[i], s[j])
}

/// `sorted` holds the texts of `of`, each as often as `of` does, in
/// ascending order.
pub open spec fn sorts(sorted: Seq<Seq<char>>, of: Seq<Seq<char>>) -> bool {
    sorted.to_multiset() == of.to_multiset() && ascending(sorted)
}

/// Calls `Itertools::sorted` on the strings of `v` and collects what it
/// yields. It sorts with `slice::sort` by the order of `String`, which
/// compares byte by byte and so code point by code point: the result holds
/// the same strings, in ascending order.
#[verifier::external_body]
fn sorted_strings(v: Vec<String>) -> (out: Vec<String>)
    ensures
        sorts(texts(out@), texts(v@)),
{
    v.into_iter().sorted().collect()
}

/// The `.rcgu.o` arguments of a captured link line, sorted.
pub fn sorted_objects(args: &Vec<String>) -> (out: Vec<String>)
    ensures
        sorts(texts(out@), selected(texts(args@), Probe::Suffix(".rcgu.o"@), true)),
{
    sorted_strings(select(args, &Pattern::Suffix(".rcgu.o"), true))
}

/// `a` names a shared library.
pub open spec fn is_shared_library(a: Seq<char>) -> bool {
    ".dylib"@.is_suffix_of(a) || ".so"@.is_suffix_of(a)
}

/// The shared libraries among the first `upto` arguments, each by its file
/// name below `frameworks`.
pub open spec fn bundled_libraries_upto(frameworks: Seq<char>, args: Seq<Seq<char>>, upto: int) -> Seq<
    Seq<char>,
>
    decreases upto,
{
    if upto <= 0 {
        Seq::empty()
    } else if is_shared_library(args[upto - 1]) {
        bundled_libraries_upto(frameworks, args, upto - 1).push(
            joined(frameworks, base_name(args[upto - 1])),
        )
    } else {
        bundled_libraries_upto(frameworks, args, upto - 1)
    }
}

/// The shared libraries of a link line, each by its file name below
/// `frameworks`.
pub open spec fn bundled_libraries(frameworks: Seq<char>, args: Seq<Seq<char>>) -> Seq<Seq<char>> {
    bundled_libraries_upto(frameworks, args, args.len() as int)
}

/// The shared libraries that the fat link named, as the bundle holds them.
pub fn bundle_libraries(frameworks: &str, link_args: &Vec<String>) -> (out: Vec<String>)
    ensures
        texts(out@) == bundled_libraries(frameworks@, texts(link_args@)),
{
    let mut out: Vec<String> = Vec::new();
    let mut i: usize = 0;
    while i < link_args.len()
        invariant
            i <= link_args.len(),
            texts(out@) =~= bundled_libraries_upto(frameworks@, texts(link_args@), i as int),
        decreases link_args.len() - i,
    {
        let a = link_args[i].as_str();
        if Pattern::Suffix(".dylib").test(a) || Pattern::Suffix(".so").test(a) {
            let name = file_name(a);
            let path = join(frameworks, name.as_str());
            push_text(&mut out, path.as_str());
        }
        i += 1;
    }
    out
}

/// What the thin link is run on and with.
#[derive(Debug)]
pub struct ThinLink {
    /// The stub object, where the link has one. It is deleted afterwards.
    pub stub: Option<String>,
    /// The changed object files, which are deleted afterwards.
    pub objects: Vec<String>,
    /// The bundle's shared libraries to link against.
    pub libraries: Vec<String>,
    /// The whole argument list: stub, objects, libraries, flags and output.
    pub args: Vec<String>,
}

/// Whether the thin link links against the shared libraries of the fat
/// link: it does for ELF and Mach-O, off WebAssembly.
pub open spec fn links_libraries(flavor: LinkerFlavor, wasm: bool) -> bool {
    !wasm && (flavor == LinkerFlavor::Gnu || flavor == LinkerFlavor::Darwin)
}

/// The stub object as an argument list: empty for WebAssembly.
pub open spec fn stub_input(wasm: bool, stub: Seq<char>) -> Seq<Seq<char>> {
    if wasm {
        Seq::empty()
    } else {
        seq![stub]
    }
}

/// The contract of `thin_link`: what `link` holds for the given inputs.
pub open spec fn is_thin_link(
    link: ThinLink,
    flavor: LinkerFlavor,
    wasm: bool,
    windows: bool,
    thin_args: Seq<Seq<char>>,
    fat_args: Seq<Seq<char>>,
    stub: Seq<char>,
    frameworks: Seq<char>,
    patch: Seq<char>,
) -> bool {
    &&& thin_link_line(flavor, thin_args).is_ok()
    &&& match link.stub {
        Some(s) => !wasm && s@ == stub,
        None => wasm,
    }
    &&& sorts(texts(link.objects@), selected(thin_args, Probe::Suffix(".rcgu.o"@), true))
    &&& texts(link.libraries@) == if links_libraries(flavor, wasm) {
        bundled_libraries(frameworks, fat_args)
    } else {
        Seq::empty()
    }
    &&& texts(link.args@) == stub_input(wasm, stub) + texts(link.objects@) + texts(
        link.libraries@,
    ) + thin_link_line(flavor, thin_args).unwrap() + output_directive(windows, patch)
}

/// Puts the thin link together.
///
/// `thin_args` is the link line captured from the thin compile, `fat_args`
/// the one captured from the fat build. Off WebAssembly the stub object
/// comes first. The changed objects follow, sorted, and for ELF and Mach-O
/// the shared libraries of the fat link as the bundle holds them. The flags
/// and the output to `patch` end the line.
pub fn thin_link(
    flavor: LinkerFlavor,
    wasm: bool,
    windows: bool,
    thin_args: &Vec<String>,
    fat_args: &Vec<String>,
    stub: &str,
    frameworks: &str,
    patch: &str,
) -> (out: Result<ThinLink, ThinLinkError>)
    ensures
        match out {
            Ok(link) => is_thin_link(
                link,
                flavor,
                wasm,
                windows,
                texts(thin_args@),
                texts(fat_args@),
                stub@,
                frameworks@,
                patch@,
            ),
            Err(e) => thin_link_line(flavor, texts(thin_args@)) == Err::<
                Seq<Seq<char>>,
                ThinLinkError,
            >(e),
        },
{
    let line = match thin_link_args(flavor, thin_args) {
        Err(e) => {
            return Err(e);
        },
        Ok(v) => v,
    };
    let objects = sorted_objects(thin_args);
    let mut args: Vec<String> = Vec::new();
    let own_stub = if wasm {
        None
    } else {
        push_text(&mut args, stub);
        Some(stub.to_owned())
    };
    assert(texts(args@) =~= stub_input(wasm, stub@));
    let libraries = if !wasm && (flavor == LinkerFlavor::Gnu || flavor == LinkerFlavor::Darwin) {
        bundle_libraries(frameworks, fat_args)
    } else {
        Vec::new()
    };
    assert(!links_libraries(flavor, wasm) ==> texts(libraries@) =~= Seq::<Seq<char>>::empty());
    push_all(&mut args, &objects);
    push_all(&mut args, &libraries);
    push_all(&mut args, &line);
    if windows {
        let directive = concat2("/OUT:", patch);
        push_text(&mut args, directive.as_str());
    } else {
        push_text(&mut args, "-o");
        push_text(&mut args, patch);
    }
    assert(texts(args@) =~= stub_input(wasm, stub@) + texts(objects@) + texts(libraries@) + texts(
        line@,
    ) + output_directive(windows, patch@));
    Ok(ThinLink { stub: own_stub, objects, libraries, args })
}

/// Puts the thin link of a context together, for the patch whose build
/// began `millis` milliseconds after the epoch: the stub lies beside the
/// compiled artifact, as the patch does, and the shared libraries are those
/// of the bundle.
pub fn patch_link(ctx: &Context, thin_args: &Vec<String>, fat_args: &Vec<String>, millis: u128) -> (out:
    Result<ThinLink, ThinLinkError>)
    requires
        ctx.wf(),
    ensures
        match out {
            Ok(link) => is_thin_link(
                link,
                ctx.triple.linker_flavor_spec(),
                ctx.triple.wasm(),
                ctx.triple.operating_system == OperatingSystem::Windows,
                texts(thin_args@),
                texts(fat_args@),
                joined(ctx.profile_dir_text(), "stub.o"@),
                joined(ctx.target_dir@, "frameworks"@),
                joined(
                    ctx.profile_dir_text(),
                    patch_name(ctx.binary(), millis as nat, ctx.triple.linker_flavor_spec()),
                ),
            ),
            Err(e) => thin_link_line(ctx.triple.linker_flavor_spec(), texts(thin_args@)) == Err::<
                Seq<Seq<char>>,
                ThinLinkError,
            >(e),
        },
{
    let stub = ctx.stub_path();
    let frameworks = ctx.frameworks_directory();
    let patch = ctx.patch_exe(millis);
    thin_link(
        ctx.linker_flavor(),
        ctx.is_wasm_or_wasi(),
        ctx.triple.is_windows(),
        thin_args,
        fat_args,
        stub.as_str(),
        frameworks.as_str(),
        patch.as_str(),
    )
}

} // verus!
