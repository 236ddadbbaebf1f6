//! The build orchestrator of one target: which builds it starts on which
//! command, and what it keeps when a build ends.

use crate::text::{chars_of, find_last, last_index_of, lemma_last_index_of, prefix_to, same_text};
use vstd::prelude::*;

verus! {

/// The two kinds of build.
#[derive(Clone, Copy, Debug, PartialEq, Eq, Structural)]
pub enum BuildKind {
    Fat,
    Thin,
}

/// Where the orchestrator stands.
#[derive(Clone, Copy, Debug, PartialEq, Eq, Structural)]
pub enum Phase {
    /// No build was asked for yet.
    Idle,
    /// A build is running.
    Building(BuildKind),
    /// The last build has ended.
    Ready,
}

/// What the driver asks of an orchestrator.
#[derive(Clone, Copy, Debug, PartialEq, Eq, Structural)]
pub enum Command {
    Fat,
    FatRebuild,
    Thin,
}

/// Why a thin build is not started.
#[derive(Clone, Copy, Debug, PartialEq, Eq, Structural)]
pub enum Rejection {
    /// No fat build has succeeded yet: there is nothing to patch.
    NoFatBuild,
    /// The running process has not reported its ASLR reference.
    NoAslrReference,
}

/// What the orchestrator does on a command.
#[derive(Clone, Copy, Debug, PartialEq, Eq, Structural)]
pub enum Action {
    /// Run a fat build.
    StartFat,
    /// Clear the accumulated patches, then run a fat build.
    ClearThenStartFat,
    /// Run a thin build against this ASLR reference.
    StartThin(u64),
    /// Leave the command waiting until the running build has ended.
    Wait,
    /// Drop the command.
    Reject(Rejection),
}

/// What the end of a build brings.
#[derive(Clone, Copy, Debug, PartialEq, Eq, Structural)]
pub enum Outcome {
    /// The fat artifact is there: read its symbols and launch it.
    Launch,
    /// The patch is there: publish its jump table.
    Publish,
    /// The build failed, or none was running: nothing is published.
    Nothing,
}

/// The state of the orchestrator of one target.
#[derive(Clone, Copy, Debug, PartialEq, Eq, Structural)]
pub struct Orchestrator {
    pub phase: Phase,
    /// Whether the symbols of a fat artifact are known.
    pub has_cache: bool,
    /// Whether the target is WebAssembly or WASI.
    pub wasm: bool,
}

/// The state after `command`, and what is done on it.
pub open spec fn step(state: Orchestrator, command: Command, aslr_reference: u64) -> (
    Orchestrator,
    Action,
) {
    if state.phase is Building {
        (state, Action::Wait)
    } else {
        match command {
            Command::Fat => (
                Orchestrator { phase: Phase::Building(BuildKind::Fat), ..state },
                Action::StartFat,
            ),
            Command::FatRebuild => (
                Orchestrator { phase: Phase::Building(BuildKind::Fat), ..state },
                Action::ClearThenStartFat,
            ),
            Command::Thin => if !state.wasm && aslr_reference == 0 {
                (state, Action::Reject(Rejection::NoAslrReference))
            } else if !state.has_cache {
                (state, Action::Reject(Rejection::NoFatBuild))
            } else {
                (
                    Orchestrator { phase: Phase::Building(BuildKind::Thin), ..state },
                    Action::StartThin(aslr_reference),
                )
            },
        }
    }
}

/// The state after the running build has ended, and what its end brings.
pub open spec fn finish(state: Orchestrator, succeeded: bool) -> (Orchestrator, Outcome) {
    match state.phase {
        Phase::Building(BuildKind::Fat) => if succeeded {
            (Orchestrator { phase: Phase::Ready, has_cache: true, ..state }, Outcome::Launch)
        } else {
            (Orchestrator { phase: Phase::Ready, ..state }, Outcome::Nothing)
        },
        Phase::Building(BuildKind::Thin) => if succeeded {
            (Orchestrator { phase: Phase::Ready, ..state }, Outcome::Publish)
        } else {
            (Orchestrator { phase: Phase::Ready, ..state }, Outcome::Nothing)
        },
        _ => (state, Outcome::Nothing),
    }
}

impl Orchestrator {
    /// An orchestrator that has built nothing yet.
    pub fn new(wasm: bool) -> (out: Orchestrator)
        ensures
            out == (Orchestrator { phase: Phase::Idle, has_cache: false, wasm }),
    {
        Orchestrator { phase: Phase::Idle, has_cache: false, wasm }
    }

    /// Takes a command. `aslr_reference` is what the running process has
    /// reported, zero where it has reported nothing.
    pub fn on_command(&mut self, command: Command, aslr_reference: u64) -> (action: Action)
        ensures
            (*final(self), action) == step(*old(self), command, aslr_reference),
    {
        match self.phase {
            Phase::Building(_) => {
                return Action::Wait;
            },
            _ => {},
        }
        match command {
            Command::Fat => {
                self.phase = Phase::Building(BuildKind::Fat);
                Action::StartFat
            },
            Command::FatRebuild => {
                self.phase = Phase::Building(BuildKind::Fat);
                Action::ClearThenStartFat
            },
            Command::Thin => {
                if !self.wasm && aslr_reference == 0 {
                    Action::Reject(Rejection::NoAslrReference)
                } else if !self.has_cache {
                    Action::Reject(Rejection::NoFatBuild)
                } else {
                    self.phase = Phase::Building(BuildKind::Thin);
                    Action::StartThin(aslr_reference)
                }
            },
        }
    }

    /// Takes the end of the running build.
    pub fn on_finished(&mut self, succeeded: bool) -> (outcome: Outcome)
        ensures
            (*final(self), outcome) == finish(*old(self), succeeded),
    {
        match self.phase {
            Phase::Building(BuildKind::Fat) => {
                self.phase = Phase::Ready;
                if succeeded {
                    self.has_cache = true;
                    Outcome::Launch
                } else {
                    Outcome::Nothing
                }
            },
            Phase::Building(BuildKind::Thin) => {
                self.phase = Phase::Ready;
                if succeeded {
                    Outcome::Publish
                } else {
                    Outcome::Nothing
                }
            },
            _ => Outcome::Nothing,
        }
    }
}

impl Rejection {
    /// What the log says of the rejection.
    pub fn message(&self) -> (out: &'static str)
        ensures
            out@ == match self {
                Rejection::NoFatBuild => "Thin build canceled, no fat build has succeeded yet!"@,
                Rejection::NoAslrReference =>
                    "Thin build canceled, aslr reference is 0 on non-wasm build!"@,
            },
    {
        match self {
            Rejection::NoFatBuild => "Thin build canceled, no fat build has succeeded yet!",
            Rejection::NoAslrReference =>
                "Thin build canceled, aslr reference is 0 on non-wasm build!",
        }
    }
}

/// A thin build starts only against a known fat artifact and, off
/// WebAssembly, a reported ASLR reference; a rejected command changes
/// nothing.
pub proof fn lemma_thin_gate(state: Orchestrator, aslr_reference: u64)
    ensures
        step(state, Command::Thin, aslr_reference).1 is StartThin ==> state.has_cache && (state.wasm
            || aslr_reference != 0),
        step(state, Command::Thin, aslr_reference).1 is Reject ==> step(
            state,
            Command::Thin,
            aslr_reference,
        ).0 == state,
{
}

/// How a run of the linker ended.
#[derive(Clone, Copy, Debug, PartialEq, Eq, Structural)]
pub enum LinkVerdict {
    /// The link succeeded and the linker said nothing.
    Clean,
    /// The link succeeded; what the linker said are warnings.
    Warnings,
    /// The link failed and the linker said why.
    Failed,
    /// The link failed and the linker said nothing.
    FailedSilently,
}

/// Judges a run of the linker by its exit status and by whether it wrote
/// to its error stream.
pub fn judge_link(succeeded: bool, stderr_is_empty: bool) -> (r: LinkVerdict)
    ensures
        r == if succeeded {
            if stderr_is_empty {
                LinkVerdict::Clean
            } else {
                LinkVerdict::Warnings
            }
        } else {
            if stderr_is_empty {
                LinkVerdict::FailedSilently
            } else {
                LinkVerdict::Failed
            }
        },
{
    if succeeded {
        if stderr_is_empty {
            LinkVerdict::Clean
        } else {
            LinkVerdict::Warnings
        }
    } else {
        if stderr_is_empty {
            LinkVerdict::FailedSilently
        } else {
            LinkVerdict::Failed
        }
    }
}

impl LinkVerdict {
    /// Whether the build goes on after the link.
    pub fn is_success(&self) -> (r: bool)
        ensures
            r == (*self == LinkVerdict::Clean || *self == LinkVerdict::Warnings),
    {
        match self {
            LinkVerdict::Clean => true,
            LinkVerdict::Warnings => true,
            _ => false,
        }
    }
}

/// What a line of the driver's input asks for.
#[derive(Clone, Copy, Debug, PartialEq, Eq, Structural)]
pub enum Input {
    /// `r`: a thin build on every orchestrator.
    Reload,
    /// `R`: clear the patches, then a fat rebuild on every orchestrator.
    Rebuild,
    /// `e`: leave.
    Exit,
}

/// `c` is white space.
pub open spec fn is_space(c: char) -> bool {
    let v = c as u32;
    (9 <= v <= 13) || v == 32 || v == 0x85 || v == 0xA0 || v == 0x1680 || (0x2000 <= v <= 0x200A)
        || v == 0x2028 || v == 0x2029 || v == 0x202F || v == 0x205F || v == 0x3000
}

/// `line` is the character `c` with nothing but white space around it.
pub open spec fn is_key(line: Seq<char>, c: char) -> bool {
    exists|i: int|
        0 <= i < line.len() && line[i] == c && forall|j: int|
            0 <= j < line.len() && j != i ==> is_space(#[trigger] line[j])
}

/// What `line` asks for.
pub open spec fn asked(line: Seq<char>) -> Option<Input> {
    if is_key(line, 'r') {
        Some(Input::Reload)
    } else if is_key(line, 'R') {
        Some(Input::Rebuild)
    } else if is_key(line, 'e') {
        Some(Input::Exit)
    } else {
        None
    }
}

/// Whether `c` is white space.
fn space(c: char) -> (r: bool)
    ensures
        r == is_space(c),
{
    let v: u32 = c as u32;
    (9 <= v && v <= 13) || v == 32 || v == 0x85 || v == 0xA0 || v == 0x1680 || (0x2000 <= v && v
        <= 0x200A) || v == 0x2028 || v == 0x2029 || v == 0x202F || v == 0x205F || v == 0x3000
}

/// Reads one line of the driver's input.
pub fn read_input(line: &str) -> (r: Option<Input>)
    ensures
        r == asked(line@),
{
    let v = chars_of(line);
    let mut found: Option<char> = None;
    let mut at: usize = 0;
    let mut i: usize = 0;
    while i < v.len()
        invariant
            i <= v.len(),
            v@ == line@,
            match found {
                None => forall|j: int| 0 <= j < i ==> is_space(#[trigger] v@[j]),
                Some(c) => at < i && v@[at as int] == c && !is_space(c) && forall|j: int|
                    0 <= j < i && j != at ==> is_space(#[trigger] v@[j]),
            },
        decreases v.len() - i,
    {
        if !space(v[i]) {
            if found.is_some() {
                proof {
                    let a = at as int;
                    let b = i as int;
                    assert forall|c: char| !is_key(line@, c) by {
                        if is_key(line@, c) {
                            let k = choose|k: int|
                                0 <= k < line@.len() && line@[k] == c && forall|j: int|
                                    0 <= j < line@.len() && j != k ==> is_space(#[trigger] line@[j]);
                            if k != a {
                                assert(is_space(line@[a]));
                            } else {
                                assert(is_space(line@[b]));
                            }
                        }
                    }
                }
                return None;
            }
            found = Some(v[i]);
            at = i;
        }
        i += 1;
    }
    match found {
        None => {
            proof {
                assert forall|c: char| !is_space(c) implies !is_key(line@, c) by {
                    if is_key(line@, c) {
                        let k = choose|k: int|
                            0 <= k < line@.len() && line@[k] == c && forall|j: int|
                                0 <= j < line@.len() && j != k ==> is_space(#[trigger] line@[j]);
                        assert(is_space(line@[k]));
                    }
                }
                assert(!is_space('r') && !is_space('R') && !is_space('e'));
            }
            None
        },
        Some(c) => {
            proof {
                assert(is_key(line@, c));
                assert forall|d: char| d != c implies !is_key(line@, d) by {
                    if is_key(line@, d) {
                        let k = choose|k: int|
                            0 <= k < line@.len() && line@[k] == d && forall|j: int|
                                0 <= j < line@.len() && j != k ==> is_space(#[trigger] line@[j]);
                        if k != at {
                            assert(is_space(line@[at as int]));
                        }
                    }
                }
            }
            if c == 'r' {
                Some(Input::Reload)
            } else if c == 'R' {
                Some(Input::Rebuild)
            } else if c == 'e' {
                Some(Input::Exit)
            } else {
                None
            }
        },
    }
}

/// The entry of the fingerprint directory belongs to the package: its name
/// is the package's name, a `-` and a hash that holds no `-`.
pub open spec fn is_fingerprint_of(entry: Seq<char>, package: Seq<char>) -> bool {
    last_index_of(entry, '-') >= 0 && entry.take(last_index_of(entry, '-')) == package
}

/// Whether the entry of the fingerprint directory belongs to the package,
/// so that it is removed before a fat build.
pub fn is_stale_fingerprint(entry: &str, package: &str) -> (r: bool)
    ensures
        r == is_fingerprint_of(entry@, package@),
{
    let v = chars_of(entry);
    proof {
        lemma_last_index_of(entry@, '-');
    }
    match find_last(&v, '-') {
        Some(i) => {
            let name = prefix_to(entry, i);
            same_text(name.as_str(), package)
        },
        None => false,
    }
}

} // verus!
