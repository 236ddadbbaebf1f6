use hotpatch::fat::{
    fat_link_args, rlib_arguments, splice_archive, strip_flavor_pair, strip_out_directive,
    strip_output_pair, strip_span, temporary_objects, FatLinkError,
};
use hotpatch::target::LinkerFlavor;

fn strings(v: &[&str]) -> Vec<String> {
    v.iter().map(|s| s.to_string()).collect()
}

const ARCHIVE: &str = "/w/target/x/debug/libdeps-12345678.a";
const EXE: &str = "/w/target/x/debug/demo";

fn captured() -> Vec<String> {
    strings(&[
        "cc",
        "/tmp/symbols.o",
        "/w/target/debug/deps/demo.1.rcgu.o",
        "/w/target/debug/deps/liba.rlib",
        "/rust/lib/libstd.rlib",
        "-lc",
        "-o",
        "/w/target/debug/deps/demo-abc",
        "-nodefaultlibs",
    ])
}

#[test]
fn gnu_fat_link_wraps_the_archive_before_the_last_object() {
    let kept = strings(&["/rust/lib/libstd.rlib"]);
    let out =
        fat_link_args(LinkerFlavor::Gnu, false, false, &captured(), ARCHIVE, true, &kept, EXE);
    assert_eq!(
        out,
        Ok(strings(&[
            "/tmp/symbols.o",
            "-Wl,--whole-archive",
            ARCHIVE,
            "-Wl,--no-whole-archive",
            "/rust/lib/libstd.rlib",
            "/w/target/debug/deps/demo.1.rcgu.o",
            "-lc",
            "-nodefaultlibs",
            "-Wl,--export-dynamic-symbol,main",
            "-o",
            EXE,
        ]))
    );
}

#[test]
fn darwin_fat_link_forces_the_load() {
    let kept = strings(&["/rust/lib/libstd.rlib", "/rust/lib/libcore.rlib"]);
    let out =
        fat_link_args(LinkerFlavor::Darwin, false, false, &captured(), ARCHIVE, true, &kept, EXE);
    assert_eq!(
        out,
        Ok(strings(&[
            "/tmp/symbols.o",
            "-Wl,-force_load",
            ARCHIVE,
            "/rust/lib/libstd.rlib",
            "/rust/lib/libcore.rlib",
            "/w/target/debug/deps/demo.1.rcgu.o",
            "-lc",
            "-nodefaultlibs",
            "-Wl,-exported_symbol,_main",
            "-o",
            EXE,
        ]))
    );
}

#[test]
fn msvc_fat_link_uses_one_directive_and_an_out_directive() {
    let args = strings(&["link.exe", "a.o", "b.rlib", "/OUT:old.exe", "/NOLOGO"]);
    let out = fat_link_args(LinkerFlavor::Msvc, false, true, &args, "deps.a", true, &Vec::new(), "new.exe");
    assert_eq!(
        out,
        Ok(strings(&[
            "/WHOLEARCHIVE:deps.a",
            "a.o",
            "/NOLOGO",
            "/HIGHENTROPYVA:NO",
            "/EXPORT:main",
            "/OUT:new.exe",
        ]))
    );
}

#[test]
fn wasm_fat_link_drops_the_flavor_pair() {
    let args = strings(&[
        "rust-lld", "-flavor", "wasm", "x.rcgu.o", "liba.rlib", "--export", "main", "-o", "old.wasm",
    ]);
    let kept = strings(&["libstd.rlib"]);
    let out = fat_link_args(LinkerFlavor::WasmLld, true, false, &args, "deps.a", true, &kept, "new.wasm");
    assert_eq!(
        out,
        Ok(strings(&[
            "--whole-archive",
            "deps.a",
            "--no-whole-archive",
            "libstd.rlib",
            "x.rcgu.o",
            "--export",
            "main",
            "-o",
            "new.wasm",
        ]))
    );
}

#[test]
fn wasm_fat_link_without_flavor_is_an_error() {
    let args = strings(&["rust-lld", "x.rcgu.o"]);
    let out = fat_link_args(LinkerFlavor::WasmLld, true, false, &args, "deps.a", true, &Vec::new(), "o");
    assert_eq!(out, Err(FatLinkError::FlavorMissing));
    let args = strings(&["rust-lld", "x.rcgu.o", "-flavor"]);
    let out = fat_link_args(LinkerFlavor::WasmLld, true, false, &args, "deps.a", true, &Vec::new(), "o");
    assert_eq!(out, Err(FatLinkError::FlavorWithoutValue));
}

#[test]
fn a_dangling_output_flag_is_an_error() {
    let args = strings(&["cc", "x.o", "-o"]);
    let out = fat_link_args(LinkerFlavor::WasmLld, false, false, &args, "deps.a", false, &Vec::new(), "o");
    assert_eq!(out, Err(FatLinkError::OutputWithoutValue));
    let args = strings(&["cc", "x.o", "--output"]);
    let out = fat_link_args(LinkerFlavor::Unsupported, false, false, &args, "deps.a", false, &Vec::new(), "o");
    assert_eq!(out, Err(FatLinkError::OutputWithoutValue));
}

#[test]
fn an_empty_archive_leaves_the_rlibs_in_place() {
    let out =
        fat_link_args(LinkerFlavor::Gnu, false, false, &captured(), ARCHIVE, false, &Vec::new(), EXE);
    assert_eq!(
        out,
        Ok(strings(&[
            "/tmp/symbols.o",
            "/w/target/debug/deps/demo.1.rcgu.o",
            "/w/target/debug/deps/liba.rlib",
            "/rust/lib/libstd.rlib",
            "-lc",
            "-nodefaultlibs",
            "-Wl,--export-dynamic-symbol,main",
            "-o",
            EXE,
        ]))
    );
}

#[test]
fn an_unsupported_flavor_only_redirects_the_output() {
    let out = fat_link_args(
        LinkerFlavor::Unsupported,
        false,
        false,
        &captured(),
        ARCHIVE,
        true,
        &Vec::new(),
        EXE,
    );
    assert_eq!(
        out,
        Ok(strings(&[
            "/tmp/symbols.o",
            "/w/target/debug/deps/demo.1.rcgu.o",
            "/w/target/debug/deps/liba.rlib",
            "/rust/lib/libstd.rlib",
            "-lc",
            "-nodefaultlibs",
            "-o",
            EXE,
        ]))
    );
}

#[test]
fn without_an_object_nothing_is_spliced() {
    let base = strings(&["liba.rlib", "-lc"]);
    let out = splice_archive(LinkerFlavor::Gnu, ARCHIVE, true, &Vec::new(), &base);
    assert_eq!(out, base);
}

#[test]
fn an_empty_line_gets_only_the_export_and_the_output() {
    let out = fat_link_args(LinkerFlavor::Gnu, false, false, &Vec::new(), ARCHIVE, true, &Vec::new(), EXE);
    assert_eq!(out, Ok(strings(&["-Wl,--export-dynamic-symbol,main", "-o", EXE])));
}

#[test]
fn splicing_twice_does_not_repeat_the_span() {
    let kept = strings(&["/rust/lib/libstd.rlib"]);
    for flavor in [LinkerFlavor::Gnu, LinkerFlavor::Darwin, LinkerFlavor::WasmLld, LinkerFlavor::Msvc] {
        let base: Vec<String> = captured().into_iter().skip(1).collect();
        let once = splice_archive(flavor, ARCHIVE, true, &kept, &base);
        let twice = splice_archive(flavor, ARCHIVE, true, &kept, &once);
        assert_eq!(once, twice);
        let carriers = once.iter().filter(|a| a.contains(ARCHIVE)).count();
        assert_eq!(carriers, 1);
    }
}

#[test]
fn a_span_that_is_already_there_is_taken_out() {
    let args = strings(&["a.o", "-Wl,--whole-archive", ARCHIVE, "-Wl,--no-whole-archive", "b.o", "-lc"]);
    assert_eq!(strip_span(LinkerFlavor::Gnu, ARCHIVE, &args), strings(&["a.o", "b.o", "-lc"]));
    // The span of another archive stays.
    let other = strings(&["a.o", "-Wl,--whole-archive", "libz.a", "-Wl,--no-whole-archive"]);
    assert_eq!(strip_span(LinkerFlavor::Gnu, ARCHIVE, &other), other);
    let out = splice_archive(LinkerFlavor::Gnu, ARCHIVE, true, &Vec::new(), &args);
    assert_eq!(
        out,
        strings(&["a.o", "-Wl,--whole-archive", ARCHIVE, "-Wl,--no-whole-archive", "b.o", "-lc"])
    );
}

#[test]
fn rlibs_before_the_last_object_leave_too() {
    let base = strings(&["a.o", "libx.rlib", "crtend.o", "liby.rlib"]);
    let kept = strings(&["libstd.rlib"]);
    let out = splice_archive(LinkerFlavor::Gnu, "d.a", true, &kept, &base);
    assert_eq!(
        out,
        strings(&["a.o", "-Wl,--whole-archive", "d.a", "-Wl,--no-whole-archive", "libstd.rlib", "crtend.o"])
    );
}

#[test]
fn only_the_first_output_pair_leaves() {
    let args = strings(&["a", "--output", "x", "-o", "y"]);
    assert_eq!(strip_output_pair(args), Some(strings(&["a", "-o", "y"])));
    let args = strings(&["a", "-o", "y", "--output", "x"]);
    assert_eq!(strip_output_pair(args), Some(strings(&["a", "--output", "x"])));
    assert_eq!(strip_output_pair(strings(&["a"])), Some(strings(&["a"])));
    assert_eq!(strip_output_pair(strings(&["-o"])), None);
}

#[test]
fn out_directive_and_flavor_pair_leave() {
    assert_eq!(strip_out_directive(strings(&["a", "/OUT:x", "/OUT:y"])), strings(&["a", "/OUT:y"]));
    assert_eq!(strip_out_directive(strings(&["a"])), strings(&["a"]));
    assert_eq!(strip_flavor_pair(strings(&["-flavor", "wasm", "a"])), Ok(strings(&["a"])));
    assert_eq!(strip_flavor_pair(strings(&["a"])), Err(FatLinkError::FlavorMissing));
}

#[test]
fn rlibs_and_temporaries_are_picked_by_suffix() {
    assert_eq!(
        rlib_arguments(&captured()),
        strings(&["/w/target/debug/deps/liba.rlib", "/rust/lib/libstd.rlib"])
    );
    assert_eq!(temporary_objects(&captured()), strings(&["/w/target/debug/deps/demo.1.rcgu.o"]));
}

#[test]
fn a_line_that_holds_the_span_links_as_the_line_without_it() {
    let with_span = strings(&[
        "cc",
        "/tmp/symbols.o",
        "-Wl,--whole-archive",
        ARCHIVE,
        "-Wl,--no-whole-archive",
        "/w/target/debug/deps/demo.1.rcgu.o",
        "/w/target/debug/deps/liba.rlib",
        "-lc",
        "-o",
        "/w/target/debug/deps/demo-abc",
    ]);
    let without: Vec<String> =
        with_span.iter().filter(|a| !a.contains("whole-archive") && *a != ARCHIVE).cloned().collect();
    let kept = strings(&["/rust/lib/libstd.rlib"]);
    let a = fat_link_args(LinkerFlavor::Gnu, false, false, &with_span, ARCHIVE, true, &kept, EXE).unwrap();
    let b = fat_link_args(LinkerFlavor::Gnu, false, false, &without, ARCHIVE, true, &kept, EXE).unwrap();
    assert_eq!(a, b);
    assert_eq!(a.iter().filter(|x| *x == ARCHIVE).count(), 1);
    assert_eq!(a.iter().filter(|x| *x == "-Wl,--whole-archive").count(), 1);
    assert_eq!(a.iter().filter(|x| *x == "-Wl,--no-whole-archive").count(), 1);
}
