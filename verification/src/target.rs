//! Target triples and the linker flavor that follows from one.

use vstd::prelude::*;

verus! {

/// How linker directives are spelled for a target.
#[derive(Clone, Copy, Debug, PartialEq, Eq, Structural)]
pub enum LinkerFlavor {
    /// ELF linkers driven through `cc`.
    Gnu,
    /// Mach-O linkers driven through `cc`.
    Darwin,
    /// `wasm-ld`.
    WasmLld,
    /// `link.exe`.
    Msvc,
    /// Any linker this crate has no directives for.
    Unsupported,
}

/// The C library and ABI part of a triple, as far as the flavor depends on it.
#[derive(Clone, Copy, Debug, PartialEq, Eq, Structural)]
pub enum Environment {
    Gnu,
    Gnuabi64,
    Gnueabi,
    Gnueabihf,
    GnuLlvm,
    Msvc,
    Other,
}

/// The operating system part of a triple, as far as the rules depend on it.
#[derive(Clone, Copy, Debug, PartialEq, Eq, Structural)]
pub enum OperatingSystem {
    Linux,
    Windows,
    Wasi,
    /// One of Apple's systems: Darwin, macOS, iOS, tvOS, watchOS, visionOS.
    Apple,
    Other,
}

/// The architecture part of a triple, as far as the rules depend on it.
#[derive(Clone, Copy, Debug, PartialEq, Eq, Structural)]
pub enum Architecture {
    Wasm32,
    Wasm64,
    Other,
}

/// A target triple: its canonical text and the three parts the rules read.
#[derive(Clone, Debug)]
pub struct TargetTriple {
    pub name: String,
    pub architecture: Architecture,
    pub operating_system: OperatingSystem,
    pub environment: Environment,
}

/// The canonical text that `target_lexicon` prints for the triple it parses
/// from `text`, or `None` where it rejects `text`.
pub uninterp spec fn lexicon_name(text: Seq<char>) -> Option<Seq<char>>;

/// The architecture of the triple that `target_lexicon` parses from `text`.
pub uninterp spec fn lexicon_architecture(text: Seq<char>) -> Option<Architecture>;

/// The operating system of the triple that `target_lexicon` parses from `text`.
pub uninterp spec fn lexicon_operating_system(text: Seq<char>) -> Option<OperatingSystem>;

/// The environment of the triple that `target_lexicon` parses from `text`.
pub uninterp spec fn lexicon_environment(text: Seq<char>) -> Option<Environment>;

/// Calls `target_lexicon::Triple::from_str` and prints the triple back with
/// its `Display`. The result is a function of `text` alone; nothing more is
/// claimed of it.
#[verifier::external_body]
fn parse_name(text: &str) -> (r: Option<String>)
    ensures
        r.is_some() == lexicon_name(text@).is_some(),
        r.is_some() ==> r.unwrap()@ == lexicon_name(text@).unwrap(),
{
    match text.parse::<target_lexicon::Triple>() {
        Ok(t) => Some(t.to_string()),
        Err(_) => None,
    }
}

/// Calls `target_lexicon::Triple::from_str` and tells the two WebAssembly
/// variants of the `architecture` field apart from all others.
#[verifier::external_body]
fn parse_architecture(text: &str) -> (r: Option<Architecture>)
    ensures
        r == lexicon_architecture(text@),
{
    match text.parse::<target_lexicon::Triple>() {
        Ok(t) => Some(match t.architecture {
            target_lexicon::Architecture::Wasm32 => Architecture::Wasm32,
            target_lexicon::Architecture::Wasm64 => Architecture::Wasm64,
            _ => Architecture::Other,
        }),
        Err(_) => None,
    }
}

/// Calls `target_lexicon::Triple::from_str` and tells the `Linux`, `Windows`
/// and `Wasi` variants of the `operating_system` field, and the seven
/// variants of Apple's systems, apart from all others.
#[verifier::external_body]
fn parse_operating_system(text: &str) -> (r: Option<OperatingSystem>)
    ensures
        r == lexicon_operating_system(text@),
{
    match text.parse::<target_lexicon::Triple>() {
        Ok(t) => Some(match t.operating_system {
            target_lexicon::OperatingSystem::Linux => OperatingSystem::Linux,
            target_lexicon::OperatingSystem::Windows => OperatingSystem::Windows,
            target_lexicon::OperatingSystem::Wasi => OperatingSystem::Wasi,
            target_lexicon::OperatingSystem::Darwin(_) | target_lexicon::OperatingSystem::MacOSX(_)
            | target_lexicon::OperatingSystem::IOS(_) | target_lexicon::OperatingSystem::TvOS(_)
            | target_lexicon::OperatingSystem::WatchOS(_)
            | target_lexicon::OperatingSystem::VisionOS(_)
            | target_lexicon::OperatingSystem::XROS(_) => OperatingSystem::Apple,
            _ => OperatingSystem::Other,
        }),
        Err(_) => None,
    }
}

/// Calls `target_lexicon::Triple::from_str` and tells the five GNU variants
/// and the `Msvc` variant of the `environment` field apart from all others.
#[verifier::external_body]
fn parse_environment(text: &str) -> (r: Option<Environment>)
    ensures
        r == lexicon_environment(text@),
{
    match text.parse::<target_lexicon::Triple>() {
        Ok(t) => Some(match t.environment {
            target_lexicon::Environment::Gnu => Environment::Gnu,
            target_lexicon::Environment::Gnuabi64 => Environment::Gnuabi64,
            target_lexicon::Environment::Gnueabi => Environment::Gnueabi,
            target_lexicon::Environment::Gnueabihf => Environment::Gnueabihf,
            target_lexicon::Environment::GnuLlvm => Environment::GnuLlvm,
            target_lexicon::Environment::Msvc => Environment::Msvc,
            _ => Environment::Other,
        }),
        Err(_) => None,
    }
}

/// The environment is one of the GNU family.
pub open spec fn is_gnu(environment: Environment) -> bool {
    environment == Environment::Gnu || environment == Environment::Gnuabi64 || environment
        == Environment::Gnueabi || environment == Environment::Gnueabihf || environment
        == Environment::GnuLlvm
}

/// The flavor that follows from the three parts of a triple: a GNU
/// environment means `Gnu`, Windows with the MSVC environment means `Msvc`,
/// one of Apple's systems means `Darwin`, Linux means `Gnu`, otherwise
/// WebAssembly means `WasmLld`, and everything else is unsupported.
pub open spec fn flavor_of(
    architecture: Architecture,
    operating_system: OperatingSystem,
    environment: Environment,
) -> LinkerFlavor {
    if is_gnu(environment) {
        LinkerFlavor::Gnu
    } else if operating_system == OperatingSystem::Windows && environment == Environment::Msvc {
        LinkerFlavor::Msvc
    } else if operating_system == OperatingSystem::Apple {
        LinkerFlavor::Darwin
    } else if operating_system == OperatingSystem::Linux {
        LinkerFlavor::Gnu
    } else if architecture != Architecture::Other {
        LinkerFlavor::WasmLld
    } else {
        LinkerFlavor::Unsupported
    }
}

/// What `TargetTriple::parse` makes of the four parsed parts.
pub open spec fn assemble(
    name: Option<Seq<char>>,
    architecture: Option<Architecture>,
    operating_system: Option<OperatingSystem>,
    environment: Option<Environment>,
) -> Option<(Seq<char>, Architecture, OperatingSystem, Environment)> {
    if name.is_some() && architecture.is_some() && operating_system.is_some()
        && environment.is_some() {
        Some((name.unwrap(), architecture.unwrap(), operating_system.unwrap(), environment.unwrap()))
    } else {
        None
    }
}

impl TargetTriple {
    /// The triple as a tuple of plain values.
    pub open spec fn parts(&self) -> (Seq<char>, Architecture, OperatingSystem, Environment) {
        (self.name@, self.architecture, self.operating_system, self.environment)
    }

    /// Puts together what the parser found; `None` where any part is missing.
    pub fn from_parts(
        name: Option<String>,
        architecture: Option<Architecture>,
        operating_system: Option<OperatingSystem>,
        environment: Option<Environment>,
    ) -> (r: Option<TargetTriple>)
        ensures
            match r {
                Some(triple) => name.is_some() && architecture == Some(triple.architecture)
                    && operating_system == Some(triple.operating_system) && environment == Some(
                    triple.environment,
                ) && name.unwrap()@ == triple.name@,
                None => name.is_none() || architecture.is_none() || operating_system.is_none()
                    || environment.is_none(),
            },
    {
        match (name, architecture, operating_system, environment) {
            (Some(name), Some(architecture), Some(operating_system), Some(environment)) => Some(
                TargetTriple { name, architecture, operating_system, environment },
            ),
            _ => None,
        }
    }

    /// Parses a target triple such as `x86_64-unknown-linux-gnu`.
    pub fn parse(text: &str) -> (r: Option<TargetTriple>)
        ensures
            match r {
                Some(triple) => assemble(
                    lexicon_name(text@),
                    lexicon_architecture(text@),
                    lexicon_operating_system(text@),
                    lexicon_environment(text@),
                ) == Some(triple.parts()),
                None => assemble(
                    lexicon_name(text@),
                    lexicon_architecture(text@),
                    lexicon_operating_system(text@),
                    lexicon_environment(text@),
                ).is_none(),
            },
    {
        TargetTriple::from_parts(
            parse_name(text),
            parse_architecture(text),
            parse_operating_system(text),
            parse_environment(text),
        )
    }

    /// The linker flavor for this target.
    pub open spec fn linker_flavor_spec(&self) -> LinkerFlavor {
        flavor_of(self.architecture, self.operating_system, self.environment)
    }

    /// The linker flavor for this target.
    pub fn linker_flavor(&self) -> (r: LinkerFlavor)
        ensures
            r == self.linker_flavor_spec(),
    {
        let gnu = match self.environment {
            Environment::Msvc => false,
            Environment::Other => false,
            _ => true,
        };
        if gnu {
            LinkerFlavor::Gnu
        } else if self.operating_system == OperatingSystem::Windows && self.environment
            == Environment::Msvc {
            LinkerFlavor::Msvc
        } else if self.operating_system == OperatingSystem::Apple {
            LinkerFlavor::Darwin
        } else if self.operating_system == OperatingSystem::Linux {
            LinkerFlavor::Gnu
        } else if self.architecture != Architecture::Other {
            LinkerFlavor::WasmLld
        } else {
            LinkerFlavor::Unsupported
        }
    }

    /// Whether the target is WebAssembly or WASI.
    pub open spec fn wasm(&self) -> bool {
        self.architecture != Architecture::Other || self.operating_system == OperatingSystem::Wasi
    }

    /// Whether the target is WebAssembly or WASI.
    pub fn is_wasm_or_wasi(&self) -> (r: bool)
        ensures
            r == self.wasm(),
    {
        self.architecture != Architecture::Other || self.operating_system == OperatingSystem::Wasi
    }

    /// Whether the target's operating system is Windows.
    pub fn is_windows(&self) -> (r: bool)
        ensures
            r == (self.operating_system == OperatingSystem::Windows),
    {
        self.operating_system == OperatingSystem::Windows
    }
}

} // verus!
