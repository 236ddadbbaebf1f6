//! The build context of one target, and the places and names that follow
//! from it.

use crate::paths::{base_name, file_name, join, joined};
use crate::target::{flavor_of, LinkerFlavor, TargetTriple};
use crate::text::{concat2, decimal, decimal_text, same_text};
use vstd::prelude::*;

verus! {

/// What is fixed for all builds of one target.
#[derive(Debug)]
pub struct Context {
    pub working_dir: String,
    pub target_dir: String,
    pub bin: Option<String>,
    pub lib: bool,
    pub triple: TargetTriple,
    /// Where the interception writes the compiler's arguments.
    pub rustc_wrapper_file: String,
    /// Where the interception writes the linker's arguments.
    pub link_args_file: String,
    /// Where the interception writes the linker's errors.
    pub link_err_file: String,
    pub bundle_path: String,
    pub profile_dir: String,
    pub profile_name: String,
    pub package: String,
    pub features: Vec<String>,
    pub rust_flags: Vec<String>,
    pub no_default_features: bool,
    pub site_dir: String,
    pub site_pkg_dir: String,
    pub wasm_bindgen_dir: String,
}

/// The extension of a patch for the flavor.
pub open spec fn patch_extension(flavor: LinkerFlavor) -> Seq<char> {
    match flavor {
        LinkerFlavor::Darwin => "dylib"@,
        LinkerFlavor::Gnu => "so"@,
        LinkerFlavor::WasmLld => "wasm"@,
        LinkerFlavor::Msvc => "dll"@,
        LinkerFlavor::Unsupported => Seq::empty(),
    }
}

/// The file name of the patch of `binary` whose build began `millis`
/// milliseconds after the epoch.
pub open spec fn patch_name(binary: Seq<char>, millis: nat, flavor: LinkerFlavor) -> Seq<char> {
    let stem = "lib"@ + binary + "-patch-"@ + decimal(millis);
    if flavor == LinkerFlavor::Unsupported {
        stem
    } else {
        stem + "."@ + patch_extension(flavor)
    }
}

/// The file name of the patch of `binary` whose build began `millis`
/// milliseconds after the epoch.
pub fn patch_file_name(binary: &str, millis: u128, flavor: LinkerFlavor) -> (out: String)
    ensures
        out@ == patch_name(binary@, millis as nat, flavor),
{
    let mut out = concat2("lib", binary);
    out.append("-patch-");
    out.append(decimal_text(millis).as_str());
    match flavor {
        LinkerFlavor::Darwin => {
            out.append(".");
            out.append("dylib");
        },
        LinkerFlavor::Gnu => {
            out.append(".");
            out.append("so");
        },
        LinkerFlavor::WasmLld => {
            out.append(".");
            out.append("wasm");
        },
        LinkerFlavor::Msvc => {
            out.append(".");
            out.append("dll");
        },
        LinkerFlavor::Unsupported => {},
    }
    assert(out@ =~= patch_name(binary@, millis as nat, flavor));
    out
}

impl Context {
    /// A context names its artifact, a binary by name or the library, and
    /// keeps the site in `site/pkg` and the post-processor's scratch files
    /// in `wasm-bindgen`, both below the target directory.
    pub open spec fn wf(&self) -> bool {
        &&& self.bin.is_some() || self.lib
        &&& self.site_dir@ == "site"@
        &&& self.site_pkg_dir@ == "pkg"@
        &&& self.wasm_bindgen_dir@ == "wasm-bindgen"@
    }

    /// Whether the context is well formed.
    pub fn check(&self) -> (r: bool)
        ensures
            r == self.wf(),
    {
        (self.bin.is_some() || self.lib) && same_text(self.site_dir.as_str(), "site") && same_text(
            self.site_pkg_dir.as_str(),
            "pkg",
        ) && same_text(self.wasm_bindgen_dir.as_str(), "wasm-bindgen")
    }

    /// The site's package directory: `site/pkg` below the target directory.
    pub open spec fn site_pkg_text(&self) -> Seq<char> {
        joined(joined(self.target_dir@, self.site_dir@), self.site_pkg_dir@)
    }

    /// The name of the artifact: the binary's where there is one, else the
    /// package's.
    pub open spec fn binary(&self) -> Seq<char> {
        match self.bin {
            Some(name) => name@,
            None => self.package@,
        }
    }

    /// The directory the compiler writes to.
    pub open spec fn profile_dir_text(&self) -> Seq<char> {
        joined(joined(self.target_dir@, self.triple.name@), self.profile_dir@)
    }

    /// Where the bundle keeps shared libraries.
    pub fn frameworks_directory(&self) -> (out: String)
        ensures
            out@ == joined(self.target_dir@, "frameworks"@),
    {
        join(self.target_dir.as_str(), "frameworks")
    }

    /// The site's directory, below the target directory.
    pub fn site_dir_path(&self) -> (out: String)
        ensures
            out@ == joined(self.target_dir@, self.site_dir@),
            self.wf() ==> out@ == joined(self.target_dir@, "site"@),
    {
        join(self.target_dir.as_str(), self.site_dir.as_str())
    }

    /// The site's package directory.
    pub fn site_pkg_path(&self) -> (out: String)
        ensures
            out@ == self.site_pkg_text(),
            self.wf() ==> out@ == joined(joined(self.target_dir@, "site"@), "pkg"@),
    {
        let site = self.site_dir_path();
        join(site.as_str(), self.site_pkg_dir.as_str())
    }

    /// The directory the compiler writes to.
    pub fn target_triple_profile_dir(&self) -> (out: String)
        ensures
            out@ == self.profile_dir_text(),
    {
        let below = join(self.target_dir.as_str(), self.triple.name.as_str());
        join(below.as_str(), self.profile_dir.as_str())
    }

    /// The scratch directory of the WebAssembly post-processor.
    pub fn wasm_bindgen_dir_path(&self) -> (out: String)
        ensures
            out@ == joined(self.target_dir@, self.wasm_bindgen_dir@),
    {
        join(self.target_dir.as_str(), self.wasm_bindgen_dir.as_str())
    }

    /// The linker flavor of the target.
    pub fn linker_flavor(&self) -> (r: LinkerFlavor)
        ensures
            r == flavor_of(
                self.triple.architecture,
                self.triple.operating_system,
                self.triple.environment,
            ),
    {
        self.triple.linker_flavor()
    }

    /// The linker to run: `wasm-ld` for WebAssembly, `link.exe` for COFF,
    /// `cc` otherwise.
    pub fn select_linker(&self) -> (out: String)
        ensures
            out@ == match self.triple.linker_flavor_spec() {
                LinkerFlavor::WasmLld => "wasm-ld"@,
                LinkerFlavor::Msvc => "link.exe"@,
                _ => "cc"@,
            },
    {
        match self.linker_flavor() {
            LinkerFlavor::WasmLld => "wasm-ld".to_owned(),
            LinkerFlavor::Msvc => "link.exe".to_owned(),
            _ => "cc".to_owned(),
        }
    }

    /// Whether the target is WebAssembly or WASI.
    pub fn is_wasm_or_wasi(&self) -> (r: bool)
        ensures
            r == self.triple.wasm(),
    {
        self.triple.is_wasm_or_wasi()
    }

    /// The name of the artifact.
    pub fn final_binary_name(&self) -> (out: String)
        requires
            self.wf(),
        ensures
            out@ == self.binary(),
    {
        match &self.bin {
            Some(name) => name.clone(),
            None => self.package.clone(),
        }
    }

    /// The path of the compiled artifact.
    pub fn compiled_exe(&self) -> (out: String)
        requires
            self.wf(),
        ensures
            out@ == joined(self.profile_dir_text(), self.binary()),
    {
        let dir = self.target_triple_profile_dir();
        let name = self.final_binary_name();
        join(dir.as_str(), name.as_str())
    }

    /// The path of the patch whose build began `millis` milliseconds after
    /// the epoch.
    pub fn patch_exe(&self, millis: u128) -> (out: String)
        requires
            self.wf(),
        ensures
            out@ == joined(
                self.profile_dir_text(),
                patch_name(self.binary(), millis as nat, self.triple.linker_flavor_spec()),
            ),
    {
        let dir = self.target_triple_profile_dir();
        let name = self.final_binary_name();
        let file = patch_file_name(name.as_str(), millis, self.linker_flavor());
        join(dir.as_str(), file.as_str())
    }

    /// The path of the stub object, beside the compiled artifact.
    pub fn stub_path(&self) -> (out: String)
        ensures
            out@ == joined(self.profile_dir_text(), "stub.o"@),
    {
        let dir = self.target_triple_profile_dir();
        join(dir.as_str(), "stub.o")
    }

    /// The path of the artifact in the bundle: the executable that is
    /// launched.
    pub fn bundle_exe(&self) -> (out: String)
        requires
            self.wf(),
        ensures
            out@ == joined(self.bundle_path@, self.binary()),
    {
        let name = self.final_binary_name();
        join(self.bundle_path.as_str(), name.as_str())
    }

    /// The module that the WebAssembly post-processor writes.
    pub fn bindgen_wasm_path(&self) -> (out: String)
        requires
            self.wf(),
        ensures
            out@ == joined(joined(self.target_dir@, "wasm-bindgen"@), self.binary() + "_bg.wasm"@),
    {
        let dir = self.wasm_bindgen_dir_path();
        let mut file = self.final_binary_name();
        file.append("_bg.wasm");
        join(dir.as_str(), file.as_str())
    }

    /// The script that the WebAssembly post-processor writes.
    pub fn bindgen_js_path(&self) -> (out: String)
        requires
            self.wf(),
        ensures
            out@ == joined(joined(self.target_dir@, "wasm-bindgen"@), self.binary() + ".js"@),
    {
        let dir = self.wasm_bindgen_dir_path();
        let mut file = self.final_binary_name();
        file.append(".js");
        join(dir.as_str(), file.as_str())
    }

    /// Where the site serves the module from.
    pub fn site_wasm_path(&self) -> (out: String)
        requires
            self.wf(),
        ensures
            out@ == joined(
                joined(joined(self.target_dir@, "site"@), "pkg"@),
                self.binary() + ".wasm"@,
            ),
    {
        let dir = self.site_pkg_path();
        let mut file = self.final_binary_name();
        file.append(".wasm");
        join(dir.as_str(), file.as_str())
    }

    /// Where the site serves the script from.
    pub fn site_js_path(&self) -> (out: String)
        requires
            self.wf(),
        ensures
            out@ == joined(
                joined(joined(self.target_dir@, "site"@), "pkg"@),
                self.binary() + ".js"@,
            ),
    {
        let dir = self.site_pkg_path();
        let mut file = self.final_binary_name();
        file.append(".js");
        join(dir.as_str(), file.as_str())
    }

    /// Where the site serves a patch from: under its file name in the
    /// site's package directory.
    pub fn site_patch_path(&self, patch: &str) -> (out: String)
        ensures
            out@ == joined(self.site_pkg_text(), base_name(patch@)),
            self.wf() ==> out@ == joined(
                joined(joined(self.target_dir@, "site"@), "pkg"@),
                base_name(patch@),
            ),
    {
        let dir = self.site_pkg_path();
        let name = file_name(patch);
        join(dir.as_str(), name.as_str())
    }

    /// The fingerprint directory of the compiler's output.
    pub fn fingerprint_dir(&self) -> (out: String)
        ensures
            out@ == joined(self.profile_dir_text(), ".fingerprint"@),
    {
        let dir = self.target_triple_profile_dir();
        join(dir.as_str(), ".fingerprint")
    }
}

} // verus!
