//! The fat link: the captured linker arguments rewritten so that the linker
//! loads every object of the fat archive.

use crate::argv::{
    find_first, find_last, first_admitted, last_admitted, push_all, push_range, push_text, select,
    selected, Pattern, Probe,
};
use crate::archive::archive_file_name;
use crate::context::Context;
use crate::paths::{join, joined};
use crate::target::{LinkerFlavor, OperatingSystem};
use crate::text::{concat2, same_text, texts};
use vstd::prelude::*;

verus! {

/// Why a captured argument list cannot be rewritten.
#[derive(Clone, Copy, Debug, PartialEq, Eq, Structural)]
pub enum FatLinkError {
    /// `-o` or `--output` is the last argument.
    OutputWithoutValue,
    /// The target is WebAssembly and the arguments hold no `-flavor`.
    FlavorMissing,
    /// `-flavor` is the last argument.
    FlavorWithoutValue,
}

/// The argument that opens the whole-archive span, where the flavor has one.
pub open spec fn span_opener(flavor: LinkerFlavor) -> Option<Seq<char>> {
    match flavor {
        LinkerFlavor::Gnu => Some("-Wl,--whole-archive"@),
        LinkerFlavor::WasmLld => Some("--whole-archive"@),
        LinkerFlavor::Darwin => Some("-Wl,-force_load"@),
        LinkerFlavor::Msvc => None,
        LinkerFlavor::Unsupported => None,
    }
}

/// The argument that closes the whole-archive span, where the flavor has one.
pub open spec fn span_closer(flavor: LinkerFlavor) -> Option<Seq<char>> {
    match flavor {
        LinkerFlavor::Gnu => Some("-Wl,--no-whole-archive"@),
        LinkerFlavor::WasmLld => Some("--no-whole-archive"@),
        LinkerFlavor::Darwin => None,
        LinkerFlavor::Msvc => None,
        LinkerFlavor::Unsupported => None,
    }
}

/// The argument of the span that names the archive.
pub open spec fn span_carrier(flavor: LinkerFlavor, archive: Seq<char>) -> Seq<char> {
    match flavor {
        LinkerFlavor::Msvc => "/WHOLEARCHIVE:"@ + archive,
        _ => archive,
    }
}

/// The arguments that make the linker load every member of `archive`.
pub open spec fn whole_archive_span(flavor: LinkerFlavor, archive: Seq<char>) -> Seq<Seq<char>> {
    match flavor {
        LinkerFlavor::Gnu => seq!["-Wl,--whole-archive"@, archive, "-Wl,--no-whole-archive"@],
        LinkerFlavor::WasmLld => seq!["--whole-archive"@, archive, "--no-whole-archive"@],
        LinkerFlavor::Darwin => seq!["-Wl,-force_load"@, archive],
        LinkerFlavor::Msvc => seq!["/WHOLEARCHIVE:"@ + archive],
        LinkerFlavor::Unsupported => Seq::empty(),
    }
}

/// Argument `i` of `args` belongs to a span for `archive` that is already
/// there: it names the archive, or it is the opener just before or the
/// closer just after the argument that does.
pub open spec fn in_span(flavor: LinkerFlavor, archive: Seq<char>, args: Seq<Seq<char>>, i: int) -> bool {
    let carrier = span_carrier(flavor, archive);
    ||| args[i] == carrier
    ||| (span_opener(flavor) == Some(args[i]) && i + 1 < args.len() && args[i + 1] == carrier)
    ||| (span_closer(flavor) == Some(args[i]) && i >= 1 && args[i - 1] == carrier)
}

/// The first `upto` arguments without those of a span that is already there.
pub open spec fn without_span_upto(
    flavor: LinkerFlavor,
    archive: Seq<char>,
    args: Seq<Seq<char>>,
    upto: int,
) -> Seq<Seq<char>>
    decreases upto,
{
    if upto <= 0 {
        Seq::empty()
    } else if in_span(flavor, archive, args, upto - 1) {
        without_span_upto(flavor, archive, args, upto - 1)
    } else {
        without_span_upto(flavor, archive, args, upto - 1).push(args[upto - 1])
    }
}

/// `args` without the arguments of a span for `archive` that is already there.
pub open spec fn without_span(flavor: LinkerFlavor, archive: Seq<char>, args: Seq<Seq<char>>) -> Seq<
    Seq<char>,
> {
    without_span_upto(flavor, archive, args, args.len() as int)
}

/// The arguments with the archive spliced in.
///
/// Nothing changes where the archive is empty, the flavor is unsupported or
/// no argument ends in `.o`. Otherwise a span that is already there and all
/// `.rlib` arguments leave, and just before the last `.o` argument come the
/// span and, after it, the rlibs kept for the linker.
pub open spec fn spliced(
    flavor: LinkerFlavor,
    archive: Seq<char>,
    has_contents: bool,
    kept: Seq<Seq<char>>,
    base: Seq<Seq<char>>,
) -> Seq<Seq<char>> {
    if !has_contents || flavor == LinkerFlavor::Unsupported {
        base
    } else {
        let clean = selected(without_span(flavor, archive, base), Probe::Suffix(".rlib"@), false);
        let k = last_admitted(clean, Probe::Suffix(".o"@));
        if k < 0 {
            base
        } else {
            clean.take(k) + whole_archive_span(flavor, archive) + kept + clean.skip(k)
        }
    }
}

/// The arguments that export `main` as a dynamic symbol.
pub open spec fn export_directives(flavor: LinkerFlavor) -> Seq<Seq<char>> {
    match flavor {
        LinkerFlavor::Gnu => seq!["-Wl,--export-dynamic-symbol,main"@],
        LinkerFlavor::Darwin => seq!["-Wl,-exported_symbol,_main"@],
        LinkerFlavor::Msvc => seq!["/HIGHENTROPYVA:NO"@, "/EXPORT:main"@],
        LinkerFlavor::WasmLld => Seq::empty(),
        LinkerFlavor::Unsupported => Seq::empty(),
    }
}

/// The index of the first `-o` or `--output`, or the length of `args`.
pub open spec fn first_output_flag(args: Seq<Seq<char>>) -> int {
    let short = first_admitted(args, Probe::Is("-o"@));
    let long = first_admitted(args, Probe::Is("--output"@));
    if short <= long {
        short
    } else {
        long
    }
}

/// `args` without the two arguments at `i` and `i + 1`.
pub open spec fn without_pair(args: Seq<Seq<char>>, i: int) -> Seq<Seq<char>> {
    args.take(i) + args.skip(i + 2)
}

/// `args` without its first `-o` or `--output` and the value after it;
/// `None` where that flag is the last argument.
pub open spec fn without_output_pair(args: Seq<Seq<char>>) -> Option<Seq<Seq<char>>> {
    let i = first_output_flag(args);
    if i >= args.len() {
        Some(args)
    } else if i + 1 >= args.len() {
        None
    } else {
        Some(without_pair(args, i))
    }
}

/// `args` without its first argument that begins with `/OUT`.
pub open spec fn without_out_directive(args: Seq<Seq<char>>) -> Seq<Seq<char>> {
    let i = first_admitted(args, Probe::Prefix("/OUT"@));
    if i >= args.len() {
        args
    } else {
        args.take(i) + args.skip(i + 1)
    }
}

/// `args` without its first `-flavor` and the value after it.
pub open spec fn without_flavor_pair(args: Seq<Seq<char>>) -> Result<Seq<Seq<char>>, FatLinkError> {
    let i = first_admitted(args, Probe::Is("-flavor"@));
    if i >= args.len() {
        Err(FatLinkError::FlavorMissing)
    } else if i + 1 >= args.len() {
        Err(FatLinkError::FlavorWithoutValue)
    } else {
        Ok(without_pair(args, i))
    }
}

/// The arguments that send the linker's output to `exe`.
pub open spec fn output_directive(windows: bool, exe: Seq<char>) -> Seq<Seq<char>> {
    if windows {
        seq!["/OUT:"@ + exe]
    } else {
        seq!["-o"@, exe]
    }
}

/// All arguments but the first, which names the driver.
pub open spec fn after_driver(link_args: Seq<Seq<char>>) -> Seq<Seq<char>> {
    if link_args.len() == 0 {
        link_args
    } else {
        link_args.skip(1)
    }
}

/// The argument list of the fat link.
///
/// The driver's name leaves, the archive is spliced in, the export of `main`
/// is appended, the output directives that were captured leave (and, for
/// WebAssembly, the `-flavor` pair), and the output is directed to `exe`.
pub open spec fn fat_link_line(
    flavor: LinkerFlavor,
    wasm: bool,
    windows: bool,
    link_args: Seq<Seq<char>>,
    archive: Seq<char>,
    has_contents: bool,
    kept: Seq<Seq<char>>,
    exe: Seq<char>,
) -> Result<Seq<Seq<char>>, FatLinkError> {
    let with_archive = spliced(flavor, archive, has_contents, kept, after_driver(link_args));
    let with_export = with_archive + export_directives(flavor);
    match without_output_pair(with_export) {
        None => Err(FatLinkError::OutputWithoutValue),
        Some(no_pair) => {
            let no_out = without_out_directive(no_pair);
            if wasm {
                match without_flavor_pair(no_out) {
                    Err(e) => Err(e),
                    Ok(direct) => Ok(direct + output_directive(windows, exe)),
                }
            } else {
                Ok(no_out + output_directive(windows, exe))
            }
        },
    }
}

/// The `.rlib` arguments of a captured link line, in their order.
pub fn rlib_arguments(link_args: &Vec<String>) -> (out: Vec<String>)
    ensures
        texts(out@) == selected(texts(link_args@), Probe::Suffix(".rlib"@), true),
{
    select(link_args, &Pattern::Suffix(".rlib"), true)
}

/// The `.rcgu.o` arguments of a link line: the temporary objects to delete
/// once the link has succeeded.
pub fn temporary_objects(args: &Vec<String>) -> (out: Vec<String>)
    ensures
        texts(out@) == selected(texts(args@), Probe::Suffix(".rcgu.o"@), true),
{
    select(args, &Pattern::Suffix(".rcgu.o"), true)
}

/// The argument of the span that names the archive.
fn carrier_text(flavor: LinkerFlavor, archive: &str) -> (out: String)
    ensures
        out@ == span_carrier(flavor, archive@),
{
    match flavor {
        LinkerFlavor::Msvc => concat2("/WHOLEARCHIVE:", archive),
        _ => archive.to_owned(),
    }
}

/// Whether argument `i` belongs to a span that is already there.
fn belongs_to_span(flavor: LinkerFlavor, carrier: &str, args: &Vec<String>, i: usize) -> (r: bool)
    requires
        i < args.len(),
    ensures
        forall|archive: Seq<char>|
            span_carrier(flavor, archive) == carrier@ ==> r == in_span(
                flavor,
                archive,
                texts(args@),
                i as int,
            ),
{
    let a = args[i].as_str();
    if same_text(a, carrier) {
        return true;
    }
    let opens = match flavor {
        LinkerFlavor::Gnu => same_text(a, "-Wl,--whole-archive"),
        LinkerFlavor::WasmLld => same_text(a, "--whole-archive"),
        LinkerFlavor::Darwin => same_text(a, "-Wl,-force_load"),
        _ => false,
    };
    if opens && i + 1 < args.len() && same_text(args[i + 1].as_str(), carrier) {
        return true;
    }
    let closes = match flavor {
        LinkerFlavor::Gnu => same_text(a, "-Wl,--no-whole-archive"),
        LinkerFlavor::WasmLld => same_text(a, "--no-whole-archive"),
        _ => false,
    };
    closes && i >= 1 && same_text(args[i - 1].as_str(), carrier)
}

/// Copies `args` without the arguments of a span that is already there.
pub fn strip_span(flavor: LinkerFlavor, archive: &str, args: &Vec<String>) -> (out: Vec<String>)
    ensures
        texts(out@) == without_span(flavor, archive@, texts(args@)),
{
    let carrier = carrier_text(flavor, archive);
    let mut out: Vec<String> = Vec::new();
    let mut i: usize = 0;
    while i < args.len()
        invariant
            i <= args.len(),
            carrier@ == span_carrier(flavor, archive@),
            texts(out@) =~= without_span_upto(flavor, archive@, texts(args@), i as int),
        decreases args.len() - i,
    {
        if !belongs_to_span(flavor, carrier.as_str(), args, i) {
            push_text(&mut out, args[i].as_str());
        }
        i += 1;
    }
    out
}

/// Appends the whole-archive span for `archive`.
fn push_span(out: &mut Vec<String>, flavor: LinkerFlavor, archive: &str)
    ensures
        texts(final(out)@) == texts(old(out)@) + whole_archive_span(flavor, archive@),
{
    match flavor {
        LinkerFlavor::Gnu => {
            push_text(out, "-Wl,--whole-archive");
            push_text(out, archive);
            push_text(out, "-Wl,--no-whole-archive");
        },
        LinkerFlavor::WasmLld => {
            push_text(out, "--whole-archive");
            push_text(out, archive);
            push_text(out, "--no-whole-archive");
        },
        LinkerFlavor::Darwin => {
            push_text(out, "-Wl,-force_load");
            push_text(out, archive);
        },
        LinkerFlavor::Msvc => {
            let carrier = concat2("/WHOLEARCHIVE:", archive);
            push_text(out, carrier.as_str());
        },
        LinkerFlavor::Unsupported => {},
    }
    assert(texts(out@) =~= texts(old(out)@) + whole_archive_span(flavor, archive@));
}

/// Splices the fat archive into the arguments that follow the driver's name.
pub fn splice_archive(
    flavor: LinkerFlavor,
    archive: &str,
    has_contents: bool,
    kept_rlibs: &Vec<String>,
    base: &Vec<String>,
) -> (out: Vec<String>)
    ensures
        texts(out@) == spliced(flavor, archive@, has_contents, texts(kept_rlibs@), texts(base@)),
{
    let mut out: Vec<String> = Vec::new();
    if !has_contents || flavor == LinkerFlavor::Unsupported {
        push_all(&mut out, base);
        assert(texts(out@) =~= texts(base@));
        return out;
    }
    let bare = strip_span(flavor, archive, base);
    let clean = select(&bare, &Pattern::Suffix(".rlib"), false);
    match find_last(&clean, &Pattern::Suffix(".o")) {
        None => {
            push_all(&mut out, base);
            assert(texts(out@) =~= texts(base@));
        },
        Some(k) => {
            proof {
                crate::argv::lemma_last_admitted_upto(
                    texts(clean@),
                    Probe::Suffix(".o"@),
                    clean@.len() as int,
                );
            }
            push_range(&mut out, &clean, 0, k);
            push_span(&mut out, flavor, archive);
            push_all(&mut out, kept_rlibs);
            push_range(&mut out, &clean, k, clean.len());
            assert(texts(out@) =~= spliced(
                flavor,
                archive@,
                has_contents,
                texts(kept_rlibs@),
                texts(base@),
            ));
        },
    }
    out
}

/// Appends the arguments that export `main`.
fn push_export(out: &mut Vec<String>, flavor: LinkerFlavor)
    ensures
        texts(final(out)@) == texts(old(out)@) + export_directives(flavor),
{
    match flavor {
        LinkerFlavor::Gnu => {
            push_text(out, "-Wl,--export-dynamic-symbol,main");
        },
        LinkerFlavor::Darwin => {
            push_text(out, "-Wl,-exported_symbol,_main");
        },
        LinkerFlavor::Msvc => {
            push_text(out, "/HIGHENTROPYVA:NO");
            push_text(out, "/EXPORT:main");
        },
        _ => {},
    }
    assert(texts(out@) =~= texts(old(out)@) + export_directives(flavor));
}

/// Copies `args` without the `width` arguments from `i` on.
fn remove_at(args: &Vec<String>, i: usize, width: usize) -> (out: Vec<String>)
    requires
        i + width <= args.len(),
    ensures
        texts(out@) == texts(args@).take(i as int) + texts(args@).skip(i + width),
{
    let mut out: Vec<String> = Vec::new();
    push_range(&mut out, args, 0, i);
    push_range(&mut out, args, i + width, args.len());
    assert(texts(out@) =~= texts(args@).take(i as int) + texts(args@).skip(i + width));
    out
}

/// Removes the first `-o` or `--output` together with its value.
pub fn strip_output_pair(args: Vec<String>) -> (out: Option<Vec<String>>)
    ensures
        match out {
            Some(v) => without_output_pair(texts(args@)) == Some(texts(v@)),
            None => without_output_pair(texts(args@)).is_none(),
        },
{
    let short = find_first(&args, &Pattern::Is("-o"));
    let long = find_first(&args, &Pattern::Is("--output"));
    let i = if short <= long {
        short
    } else {
        long
    };
    if i >= args.len() {
        Some(args)
    } else if i + 1 >= args.len() {
        None
    } else {
        Some(remove_at(&args, i, 2))
    }
}

/// Removes the first argument that begins with `/OUT`.
pub fn strip_out_directive(args: Vec<String>) -> (out: Vec<String>)
    ensures
        texts(out@) == without_out_directive(texts(args@)),
{
    let i = find_first(&args, &Pattern::Prefix("/OUT"));
    if i >= args.len() {
        args
    } else {
        remove_at(&args, i, 1)
    }
}

/// Removes the first `-flavor` together with its value.
pub fn strip_flavor_pair(args: Vec<String>) -> (out: Result<Vec<String>, FatLinkError>)
    ensures
        match out {
            Ok(v) => without_flavor_pair(texts(args@)) == Ok::<Seq<Seq<char>>, FatLinkError>(
                texts(v@),
            ),
            Err(e) => without_flavor_pair(texts(args@)) == Err::<Seq<Seq<char>>, FatLinkError>(e),
        },
{
    let i = find_first(&args, &Pattern::Is("-flavor"));
    if i >= args.len() {
        Err(FatLinkError::FlavorMissing)
    } else if i + 1 >= args.len() {
        Err(FatLinkError::FlavorWithoutValue)
    } else {
        Ok(remove_at(&args, i, 2))
    }
}

/// Appends the arguments that send the linker's output to `exe`.
fn push_output(out: &mut Vec<String>, windows: bool, exe: &str)
    ensures
        texts(final(out)@) == texts(old(out)@) + output_directive(windows, exe@),
{
    if windows {
        let directive = concat2("/OUT:", exe);
        push_text(out, directive.as_str());
    } else {
        push_text(out, "-o");
        push_text(out, exe);
    }
    assert(texts(out@) =~= texts(old(out)@) + output_directive(windows, exe@));
}

/// Rewrites the captured linker arguments for the fat link.
///
/// `link_args` is the captured line, the driver's name first. `archive` is
/// the path of the fat archive, `has_contents` whether it holds any member,
/// `kept_rlibs` the rlibs that stay with the linker, and `exe` the path the
/// compiler expects the artifact at.
pub fn fat_link_args(
    flavor: LinkerFlavor,
    wasm: bool,
    windows: bool,
    link_args: &Vec<String>,
    archive: &str,
    has_contents: bool,
    kept_rlibs: &Vec<String>,
    exe: &str,
) -> (out: Result<Vec<String>, FatLinkError>)
    ensures
        match out {
            Ok(v) => fat_link_line(
                flavor,
                wasm,
                windows,
                texts(link_args@),
                archive@,
                has_contents,
                texts(kept_rlibs@),
                exe@,
            ) == Ok::<Seq<Seq<char>>, FatLinkError>(texts(v@)),
            Err(e) => fat_link_line(
                flavor,
                wasm,
                windows,
                texts(link_args@),
                archive@,
                has_contents,
                texts(kept_rlibs@),
                exe@,
            ) == Err::<Seq<Seq<char>>, FatLinkError>(e),
        },
{
    let mut base: Vec<String> = Vec::new();
    if link_args.len() > 0 {
        push_range(&mut base, link_args, 1, link_args.len());
    }
    assert(texts(base@) =~= after_driver(texts(link_args@)));
    let mut args = splice_archive(flavor, archive, has_contents, kept_rlibs, &base);
    push_export(&mut args, flavor);
    let args = match strip_output_pair(args) {
        None => {
            return Err(FatLinkError::OutputWithoutValue);
        },
        Some(v) => v,
    };
    let args = strip_out_directive(args);
    let mut args = if wasm {
        match strip_flavor_pair(args) {
            Err(e) => {
                return Err(e);
            },
            Ok(v) => v,
        }
    } else {
        args
    };
    push_output(&mut args, windows, exe);
    Ok(args)
}


/// The argument list of the fat link of a context: the archive with the
/// given hash lies beside the compiled artifact, which is also where the
/// linker's output goes.
pub fn fat_link(
    ctx: &Context,
    link_args: &Vec<String>,
    hash: &str,
    has_contents: bool,
    kept_rlibs: &Vec<String>,
) -> (out: Result<Vec<String>, FatLinkError>)
    requires
        ctx.wf(),
    ensures
        match out {
            Ok(v) => fat_link_line(
                ctx.triple.linker_flavor_spec(),
                ctx.triple.wasm(),
                ctx.triple.operating_system == OperatingSystem::Windows,
                texts(link_args@),
                joined(ctx.profile_dir_text(), "libdeps-"@ + hash@ + ".a"@),
                has_contents,
                texts(kept_rlibs@),
                joined(ctx.profile_dir_text(), ctx.binary()),
            ) == Ok::<Seq<Seq<char>>, FatLinkError>(texts(v@)),
            Err(e) => fat_link_line(
                ctx.triple.linker_flavor_spec(),
                ctx.triple.wasm(),
                ctx.triple.operating_system == OperatingSystem::Windows,
                texts(link_args@),
                joined(ctx.profile_dir_text(), "libdeps-"@ + hash@ + ".a"@),
                has_contents,
                texts(kept_rlibs@),
                joined(ctx.profile_dir_text(), ctx.binary()),
            ) == Err::<Seq<Seq<char>>, FatLinkError>(e),
        },
{
    let dir = ctx.target_triple_profile_dir();
    let archive = join(dir.as_str(), archive_file_name(hash).as_str());
    let exe = ctx.compiled_exe();
    fat_link_args(
        ctx.linker_flavor(),
        ctx.is_wasm_or_wasi(),
        ctx.triple.is_windows(),
        link_args,
        archive.as_str(),
        has_contents,
        kept_rlibs,
        exe.as_str(),
    )
}

} // verus!
