//! Symbol tables, the cache of the fat module, the stub that resolves a
//! patch against the running process, and the jump table.

use crate::text::same_text;
use vstd::prelude::*;

verus! {

/// A symbol: its name and its address.
#[derive(Debug)]
pub struct Symbol {
    pub name: String,
    pub address: u64,
}

/// A table from symbol names to addresses. No name stands in it twice.
#[derive(Debug)]
pub struct SymbolTable {
    pub entries: Vec<Symbol>,
}

/// The index of the first of the entries from `from` on that has the name,
/// or the number of entries where none has it.
pub open spec fn index_from(entries: Seq<Symbol>, name: Seq<char>, from: int) -> int
    decreases entries.len() - from,
{
    if from >= entries.len() {
        entries.len() as int
    } else if entries[from].name@ == name {
        from
    } else {
        index_from(entries, name, from + 1)
    }
}

/// What `index_from` finds is within bounds, has the name, and is the first
/// such entry from `from` on.
pub proof fn lemma_index_from(entries: Seq<Symbol>, name: Seq<char>, from: int)
    requires
        0 <= from <= entries.len(),
    ensures
        from <= index_from(entries, name, from) <= entries.len(),
        index_from(entries, name, from) < entries.len() ==> entries[index_from(
            entries,
            name,
            from,
        )].name@ == name,
        forall|j: int| from <= j < index_from(entries, name, from) ==> entries[j].name@ != name,
    decreases entries.len() - from,
{
    if from < entries.len() && entries[from].name@ != name {
        lemma_index_from(entries, name, from + 1);
    }
}

impl View for SymbolTable {
    type V = Map<Seq<char>, u64>;

    /// The table as a map from names to addresses.
    open spec fn view(&self) -> Map<Seq<char>, u64> {
        Map::new(
            |name: Seq<char>| index_from(self.entries@, name, 0) < self.entries@.len(),
            |name: Seq<char>| self.entries@[index_from(self.entries@, name, 0)].address,
        )
    }
}

impl SymbolTable {
    /// No name stands in the table twice.
    pub open spec fn wf(&self) -> bool {
        forall|i: int, j: int|
            0 <= i < j < self.entries@.len() ==> self.entries@[i].name@ != self.entries@[j].name@
    }

    /// An empty table.
    pub fn new() -> (out: SymbolTable)
        ensures
            out.wf(),
            out@ == Map::<Seq<char>, u64>::empty(),
    {
        let out = SymbolTable { entries: Vec::new() };
        assert(out@ =~= Map::<Seq<char>, u64>::empty());
        out
    }

    /// The number of symbols.
    pub fn len(&self) -> (n: usize)
        ensures
            n == self.entries@.len(),
    {
        self.entries.len()
    }

    /// Finds the entry with the name; the number of entries where there is
    /// none.
    fn position(&self, name: &str) -> (i: usize)
        ensures
            i as int == index_from(self.entries@, name@, 0),
            i <= self.entries@.len(),
    {
        let mut i: usize = 0;
        while i < self.entries.len()
            invariant
                i <= self.entries.len(),
                index_from(self.entries@, name@, 0) == index_from(self.entries@, name@, i as int),
            decreases self.entries.len() - i,
        {
            if same_text(self.entries[i].name.as_str(), name) {
                return i;
            }
            i += 1;
        }
        i
    }

    /// The address of the symbol with the name.
    pub fn address_of(&self, name: &str) -> (r: Option<u64>)
        ensures
            r == if self@.contains_key(name@) {
                Some(self@[name@])
            } else {
                None
            },
    {
        let i = self.position(name);
        if i < self.entries.len() {
            Some(self.entries[i].address)
        } else {
            None
        }
    }

    /// Whether the table holds a symbol with the name.
    pub fn defines(&self, name: &str) -> (r: bool)
        ensures
            r == self@.contains_key(name@),
    {
        self.position(name) < self.entries.len()
    }

    /// Sets the address of the symbol with the name, which enters the table
    /// where it was not in it.
    pub fn insert(&mut self, name: &str, address: u64)
        requires
            old(self).wf(),
        ensures
            final(self).wf(),
            final(self)@ == old(self)@.insert(name@, address),
    {
        let i = self.position(name);
        let ghost before = self.entries@;
        proof {
            lemma_index_from(before, name@, 0);
        }
        if i < self.entries.len() {
            let replaced = Symbol { name: name.to_owned(), address };
            self.entries.set(i, replaced);
        } else {
            self.entries.push(Symbol { name: name.to_owned(), address });
        }
        let ghost after = self.entries@;
        proof {
            assert forall|k: Seq<char>|
                index_from(after, k, 0) == (if k == name@ {
                    i as int
                } else if index_from(before, k, 0) < before.len() {
                    index_from(before, k, 0)
                } else {
                    after.len() as int
                }) by {
                lemma_index_from(before, k, 0);
                lemma_index_from(after, k, 0);
                let a = index_from(after, k, 0);
                let b = index_from(before, k, 0);
                if k == name@ {
                    assert(after[i as int].name@ == name@);
                    if a < i {
                        assert(before[a].name@ == after[a].name@);
                    }
                } else {
                    if b < before.len() {
                        assert(after[b].name@ == before[b].name@);
                        if a < b {
                            assert(after[a].name@ == before[a].name@);
                        }
                    } else {
                        if a < after.len() {
                            if a < before.len() {
                                assert(after[a].name@ == before[a].name@ || a == i);
                            }
                        }
                    }
                }
            }
            assert(self@ =~= old(self)@.insert(name@, address)) by {
                assert forall|k: Seq<char>| #[trigger]
                    self@.contains_key(k) == old(self)@.insert(name@, address).contains_key(k) by {
                    lemma_index_from(before, k, 0);
                }
                assert forall|k: Seq<char>| #[trigger] self@.contains_key(k) implies self@[k]
                    == old(self)@.insert(name@, address)[k] by {
                    lemma_index_from(before, k, 0);
                }
            }
        }
    }
}

/// One entry of an object file's symbol table, as plain values.
#[derive(Debug)]
pub struct ObjectSymbol {
    pub name: String,
    pub address: u64,
    /// Whether the object file refers to the symbol without defining it.
    pub undefined: bool,
}

/// One of the symbols defines the name.
pub open spec fn defined_among(symbols: Seq<ObjectSymbol>, name: Seq<char>) -> bool {
    exists|j: int| 0 <= j < symbols.len() && !symbols[j].undefined && symbols[j].name@ == name
}

/// The table of the first `upto` symbols that are defined and named; of
/// two with the same name the later one counts.
pub open spec fn defined_upto(symbols: Seq<ObjectSymbol>, upto: int) -> Map<Seq<char>, u64>
    decreases upto,
{
    if upto <= 0 {
        Map::empty()
    } else if !symbols[upto - 1].undefined && symbols[upto - 1].name@.len() > 0 {
        defined_upto(symbols, upto - 1).insert(symbols[upto - 1].name@, symbols[upto - 1].address)
    } else {
        defined_upto(symbols, upto - 1)
    }
}

/// The table holds the names that one of the first `upto` symbols defines.
pub proof fn lemma_defined_upto(symbols: Seq<ObjectSymbol>, upto: int, name: Seq<char>)
    requires
        0 <= upto <= symbols.len(),
    ensures
        defined_upto(symbols, upto).contains_key(name) <==> name.len() > 0 && exists|j: int|
            0 <= j < upto && !symbols[j].undefined && symbols[j].name@ == name,
    decreases upto,
{
    if upto > 0 {
        lemma_defined_upto(symbols, upto - 1, name);
        if defined_upto(symbols, upto - 1).contains_key(name) {
            let j = choose|j: int|
                0 <= j < upto - 1 && !symbols[j].undefined && symbols[j].name@ == name;
            assert(0 <= j < upto && !symbols[j].undefined && symbols[j].name@ == name);
        }
        if name.len() > 0 && exists|j: int|
            0 <= j < upto && !symbols[j].undefined && symbols[j].name@ == name {
            let j = choose|j: int|
                0 <= j < upto && !symbols[j].undefined && symbols[j].name@ == name;
            if j < upto - 1 {
                assert(defined_upto(symbols, upto - 1).contains_key(name));
            }
        }
    }
}

/// The symbols that a module defines, by name.
pub fn defined_symbols(symbols: &Vec<ObjectSymbol>) -> (out: SymbolTable)
    ensures
        out.wf(),
        out@ == defined_upto(symbols@, symbols@.len() as int),
{
    let mut out = SymbolTable::new();
    let mut i: usize = 0;
    while i < symbols.len()
        invariant
            i <= symbols.len(),
            out.wf(),
            out@ == defined_upto(symbols@, i as int),
        decreases symbols.len() - i,
    {
        let symbol = &symbols[i];
        if !symbol.undefined && symbol.name.as_str().unicode_len() > 0 {
            out.insert(symbol.name.as_str(), symbol.address);
        }
        i += 1;
    }
    out
}

/// The symbol at `i` is left undefined by the patch: it is named, an
/// object refers to it, and no object of the patch defines it.
pub open spec fn left_undefined(symbols: Seq<ObjectSymbol>, i: int) -> bool {
    symbols[i].undefined && symbols[i].name@.len() > 0 && !defined_among(
        symbols,
        symbols[i].name@,
    )
}

/// The names among the first `upto` symbols that the patch leaves
/// undefined, in their order.
pub open spec fn undefined_upto(symbols: Seq<ObjectSymbol>, upto: int) -> Seq<Seq<char>>
    decreases upto,
{
    if upto <= 0 {
        Seq::empty()
    } else if left_undefined(symbols, upto - 1) {
        undefined_upto(symbols, upto - 1).push(symbols[upto - 1].name@)
    } else {
        undefined_upto(symbols, upto - 1)
    }
}

/// The names that a patch leaves undefined. `symbols` holds the symbols of
/// all object files of the patch.
pub fn undefined_in_patch(symbols: &Vec<ObjectSymbol>) -> (out: Vec<String>)
    ensures
        crate::text::texts(out@) == undefined_upto(symbols@, symbols@.len() as int),
{
    let defined = defined_symbols(symbols);
    let mut out: Vec<String> = Vec::new();
    let mut i: usize = 0;
    while i < symbols.len()
        invariant
            i <= symbols.len(),
            defined@ == defined_upto(symbols@, symbols@.len() as int),
            crate::text::texts(out@) =~= undefined_upto(symbols@, i as int),
        decreases symbols.len() - i,
    {
        let symbol = &symbols[i];
        let name = symbol.name.as_str();
        proof {
            lemma_defined_upto(symbols@, symbols@.len() as int, name@);
        }
        if symbol.undefined && name.unicode_len() > 0 && !defined.defines(name) {
            crate::argv::push_text(&mut out, name);
        }
        i += 1;
    }
    out
}

/// What is known of the fat module: its symbols and, for WebAssembly, the
/// indices of its functions in the indirect function table.
#[derive(Debug)]
pub struct ModuleCache {
    pub symbols: SymbolTable,
    pub ifuncs: SymbolTable,
}

impl ModuleCache {
    /// Both tables are well formed.
    pub open spec fn wf(&self) -> bool {
        self.symbols.wf() && self.ifuncs.wf()
    }

    /// A cache of a module without symbols.
    pub fn new() -> (out: ModuleCache)
        ensures
            out.wf(),
            out.symbols@ == Map::<Seq<char>, u64>::empty(),
            out.ifuncs@ == Map::<Seq<char>, u64>::empty(),
    {
        ModuleCache { symbols: SymbolTable::new(), ifuncs: SymbolTable::new() }
    }

    /// The address of the symbol in the fat module.
    pub fn address_of(&self, name: &str) -> (r: Option<u64>)
        ensures
            r == if self.symbols@.contains_key(name@) {
                Some(self.symbols@[name@])
            } else {
                None
            },
    {
        self.symbols.address_of(name)
    }

    /// The symbols that a patch can replace: those of the fat module, and
    /// for WebAssembly those among them that the indirect function table
    /// holds.
    pub open spec fn patchable(&self, wasm: bool, name: Seq<char>) -> bool {
        self.symbols@.contains_key(name) && (wasm ==> self.ifuncs@.contains_key(name))
    }
}

/// Why the stub cannot be made.
#[derive(Clone, Copy, Debug, PartialEq, Eq, Structural)]
pub enum StubError {
    /// The undefined symbol at this index is neither in the fat module nor
    /// supplied by a shared library.
    Unresolved(usize),
    /// The address of the undefined symbol at this index, moved by the
    /// reference, does not fit in 64 bits.
    AddressOverflow(usize),
}

/// The undefined symbol can be resolved: the fat module defines it, or a
/// shared library supplies it.
pub open spec fn resolvable(
    symbols: Map<Seq<char>, u64>,
    supplied: Map<Seq<char>, u64>,
    name: Seq<char>,
) -> bool {
    symbols.contains_key(name) || supplied.contains_key(name)
}

/// The address of the symbol in the running process fits in 64 bits.
pub open spec fn fits(symbols: Map<Seq<char>, u64>, aslr_reference: u64, name: Seq<char>) -> bool {
    symbols.contains_key(name) ==> symbols[name] + aslr_reference <= u64::MAX
}

/// The stub for the first `upto` undefined symbols: each one that the fat
/// module defines, at its address there moved by the reference.
pub open spec fn stub_upto(
    symbols: Map<Seq<char>, u64>,
    undefined: Seq<Seq<char>>,
    aslr_reference: u64,
    upto: int,
) -> Map<Seq<char>, u64>
    decreases upto,
{
    if upto <= 0 {
        Map::empty()
    } else if symbols.contains_key(undefined[upto - 1]) {
        stub_upto(symbols, undefined, aslr_reference, upto - 1).insert(
            undefined[upto - 1],
            (symbols[undefined[upto - 1]] + aslr_reference) as u64,
        )
    } else {
        stub_upto(symbols, undefined, aslr_reference, upto - 1)
    }
}

/// The stub holds the undefined symbols that the fat module defines, and
/// each at its address in the running process.
pub proof fn lemma_stub_upto(
    symbols: Map<Seq<char>, u64>,
    undefined: Seq<Seq<char>>,
    aslr_reference: u64,
    upto: int,
)
    requires
        0 <= upto <= undefined.len(),
    ensures
        forall|name: Seq<char>| #[trigger]
            stub_upto(symbols, undefined, aslr_reference, upto).contains_key(name) <==> (
            symbols.contains_key(name) && exists|i: int| 0 <= i < upto && undefined[i] == name),
        forall|name: Seq<char>| #[trigger]
            stub_upto(symbols, undefined, aslr_reference, upto).contains_key(name) ==> stub_upto(
                symbols,
                undefined,
                aslr_reference,
                upto,
            )[name] == (symbols[name] + aslr_reference) as u64,
    decreases upto,
{
    if upto > 0 {
        lemma_stub_upto(symbols, undefined, aslr_reference, upto - 1);
        let before = stub_upto(symbols, undefined, aslr_reference, upto - 1);
        let now = stub_upto(symbols, undefined, aslr_reference, upto);
        assert forall|name: Seq<char>| #[trigger]
            now.contains_key(name) <==> (symbols.contains_key(name) && exists|i: int|
                0 <= i < upto && undefined[i] == name) by {
            if now.contains_key(name) {
                if before.contains_key(name) {
                    let i = choose|i: int| 0 <= i < upto - 1 && undefined[i] == name;
                    assert(0 <= i < upto && undefined[i] == name);
                } else {
                    assert(undefined[upto - 1] == name);
                }
            }
            if symbols.contains_key(name) && exists|i: int| 0 <= i < upto && undefined[i] == name {
                let i = choose|i: int| 0 <= i < upto && undefined[i] == name;
                if i < upto - 1 {
                    assert(before.contains_key(name));
                }
            }
        }
    }
}

/// Makes the stub: for each undefined symbol of the patch that the fat
/// module defines, its address in the running process.
///
/// `undefined` holds the names that the patch's objects leave undefined,
/// `supplied` the names that the preserved shared libraries define, and
/// `aslr_reference` what the running process reported.
pub fn resolve_stub(
    cache: &ModuleCache,
    undefined: &Vec<String>,
    supplied: &SymbolTable,
    aslr_reference: u64,
) -> (out: Result<SymbolTable, StubError>)
    requires
        cache.wf(),
    ensures
        match out {
            Ok(stub) => {
                &&& stub.wf()
                &&& forall|i: int|
                    0 <= i < undefined@.len() ==> resolvable(
                        cache.symbols@,
                        supplied@,
                        #[trigger] undefined@[i]@,
                    ) && fits(cache.symbols@, aslr_reference, undefined@[i]@)
                &&& stub@ == stub_upto(
                    cache.symbols@,
                    crate::text::texts(undefined@),
                    aslr_reference,
                    undefined@.len() as int,
                )
            },
            Err(StubError::Unresolved(i)) => {
                &&& i < undefined@.len()
                &&& !resolvable(cache.symbols@, supplied@, undefined@[i as int]@)
                &&& forall|j: int|
                    0 <= j < i ==> resolvable(cache.symbols@, supplied@, #[trigger] undefined@[j]@)
                        && fits(cache.symbols@, aslr_reference, undefined@[j]@)
            },
            Err(StubError::AddressOverflow(i)) => {
                &&& i < undefined@.len()
                &&& !fits(cache.symbols@, aslr_reference, undefined@[i as int]@)
                &&& forall|j: int|
                    0 <= j < i ==> resolvable(cache.symbols@, supplied@, #[trigger] undefined@[j]@)
                        && fits(cache.symbols@, aslr_reference, undefined@[j]@)
            },
        },
{
    let mut stub = SymbolTable::new();
    let mut i: usize = 0;
    while i < undefined.len()
        invariant
            i <= undefined.len(),
            cache.wf(),
            stub.wf(),
            stub@ == stub_upto(
                cache.symbols@,
                crate::text::texts(undefined@),
                aslr_reference,
                i as int,
            ),
            forall|j: int|
                0 <= j < i ==> resolvable(cache.symbols@, supplied@, #[trigger] undefined@[j]@)
                    && fits(cache.symbols@, aslr_reference, undefined@[j]@),
        decreases undefined.len() - i,
    {
        let name = undefined[i].as_str();
        match cache.address_of(name) {
            Some(address) => {
                match address.checked_add(aslr_reference) {
                    Some(value) => {
                        stub.insert(name, value);
                    },
                    None => {
                        return Err(StubError::AddressOverflow(i));
                    },
                }
            },
            None => {
                if !supplied.defines(name) {
                    return Err(StubError::Unresolved(i));
                }
            },
        }
        i += 1;
    }
    Ok(stub)
}

/// What the running process needs to apply a patch.
#[derive(Debug)]
pub struct JumpTable {
    /// Where the patch can be loaded from.
    pub lib: String,
    /// From the names of the replaced symbols to their addresses in the
    /// patch.
    pub map: SymbolTable,
    /// What the running process reported when the patch was built.
    pub aslr_reference: u64,
}

/// The jump table's map over the first `upto` symbols of the patch: each
/// one that can be replaced in the fat module, at its address in the patch.
pub open spec fn jumps_upto(
    cache: ModuleCache,
    wasm: bool,
    patch: Seq<Symbol>,
    upto: int,
) -> Map<Seq<char>, u64>
    decreases upto,
{
    if upto <= 0 {
        Map::empty()
    } else if cache.patchable(wasm, patch[upto - 1].name@) {
        jumps_upto(cache, wasm, patch, upto - 1).insert(
            patch[upto - 1].name@,
            patch[upto - 1].address,
        )
    } else {
        jumps_upto(cache, wasm, patch, upto - 1)
    }
}

/// Builds the jump table of a patch.
///
/// `patch` holds the symbols that the patch defines, `lib` is where the
/// patch lies.
pub fn create_jump_table(
    lib: &str,
    patch: &SymbolTable,
    cache: &ModuleCache,
    aslr_reference: u64,
    wasm: bool,
) -> (out: JumpTable)
    requires
        cache.wf(),
        patch.wf(),
    ensures
        out.lib@ == lib@,
        out.aslr_reference == aslr_reference,
        out.map.wf(),
        out.map@ == jumps_upto(*cache, wasm, patch.entries@, patch.entries@.len() as int),
{
    let mut map = SymbolTable::new();
    let mut i: usize = 0;
    while i < patch.entries.len()
        invariant
            i <= patch.entries.len(),
            cache.wf(),
            map.wf(),
            map@ == jumps_upto(*cache, wasm, patch.entries@, i as int),
        decreases patch.entries.len() - i,
    {
        let symbol = &patch.entries[i];
        let name = symbol.name.as_str();
        if cache.symbols.defines(name) && (!wasm || cache.ifuncs.defines(name)) {
            map.insert(name, symbol.address);
        }
        i += 1;
    }
    JumpTable { lib: lib.to_owned(), map, aslr_reference }
}

/// The jump table is consistent: each of its keys is a symbol that both
/// the fat module and the patch define, and each value is the symbol's
/// address in the patch.
pub proof fn lemma_jump_table_consistent(
    cache: ModuleCache,
    wasm: bool,
    patch: SymbolTable,
    name: Seq<char>,
)
    requires
        patch.wf(),
        jumps_upto(cache, wasm, patch.entries@, patch.entries@.len() as int).contains_key(name),
    ensures
        cache.symbols@.contains_key(name),
        patch@.contains_key(name),
        jumps_upto(cache, wasm, patch.entries@, patch.entries@.len() as int)[name] == patch@[name],
{
    lemma_jumps_upto(cache, wasm, patch, patch.entries@.len() as int, name);
    let i = choose|i: int| 0 <= i < patch.entries@.len() && patch.entries@[i].name@ == name;
    lemma_index_from(patch.entries@, name, 0);
}

/// A key of the map over the first `upto` symbols is the name of one of
/// them, which the fat module defines, and its value is that symbol's
/// address.
proof fn lemma_jumps_upto(
    cache: ModuleCache,
    wasm: bool,
    patch: SymbolTable,
    upto: int,
    name: Seq<char>,
)
    requires
        patch.wf(),
        0 <= upto <= patch.entries@.len(),
        jumps_upto(cache, wasm, patch.entries@, upto).contains_key(name),
    ensures
        cache.patchable(wasm, name),
        exists|i: int|
            0 <= i < upto && patch.entries@[i].name@ == name && jumps_upto(
                cache,
                wasm,
                patch.entries@,
                upto,
            )[name] == patch.entries@[i].address,
    decreases upto,
{
    if upto > 0 {
        let last = patch.entries@[upto - 1];
        if cache.patchable(wasm, last.name@) && last.name@ == name {
            assert(0 <= upto - 1 < upto && patch.entries@[upto - 1].name@ == name);
        } else {
            lemma_jumps_upto(cache, wasm, patch, upto - 1, name);
            let i = choose|i: int|
                0 <= i < upto - 1 && patch.entries@[i].name@ == name && jumps_upto(
                    cache,
                    wasm,
                    patch.entries@,
                    upto - 1,
                )[name] == patch.entries@[i].address;
            assert(0 <= i < upto && patch.entries@[i].name@ == name);
        }
    }
}

/// One segment of the table of indirect functions: the index of its first
/// place, and for each of its places the name of the function that stands
/// there, where it has one.
#[derive(Debug)]
pub struct TableSegment {
    pub base: u64,
    pub names: Vec<Option<String>>,
}

/// `table` with the functions in the first `upto` places of the segment:
/// each named function at the index of its place, which is the segment's
/// base and the place's number. A place whose index does not fit in 64 bits
/// is passed over.
pub open spec fn with_segment_upto(table: Map<Seq<char>, u64>, segment: TableSegment, upto: int) -> Map<
    Seq<char>,
    u64,
>
    decreases upto,
{
    if upto <= 0 {
        table
    } else {
        let before = with_segment_upto(table, segment, upto - 1);
        match segment.names@[upto - 1] {
            Some(name) => if segment.base + (upto - 1) <= u64::MAX {
                before.insert(name@, (segment.base + (upto - 1)) as u64)
            } else {
                before
            },
            None => before,
        }
    }
}

/// The indices of the functions in the first `upto` segments, by name.
pub open spec fn ifuncs_upto(segments: Seq<TableSegment>, upto: int) -> Map<Seq<char>, u64>
    decreases upto,
{
    if upto <= 0 {
        Map::empty()
    } else {
        with_segment_upto(
            ifuncs_upto(segments, upto - 1),
            segments[upto - 1],
            segments[upto - 1].names@.len() as int,
        )
    }
}

/// The table of indirect functions by name: for each function that stands
/// in a segment, the index of its place.
pub fn ifunc_table(segments: &Vec<TableSegment>) -> (out: SymbolTable)
    ensures
        out.wf(),
        out@ == ifuncs_upto(segments@, segments@.len() as int),
{
    let mut out = SymbolTable::new();
    let mut i: usize = 0;
    while i < segments.len()
        invariant
            i <= segments.len(),
            out.wf(),
            out@ == ifuncs_upto(segments@, i as int),
        decreases segments.len() - i,
    {
        let segment = &segments[i];
        let ghost start = out@;
        let mut j: usize = 0;
        while j < segment.names.len()
            invariant
                j <= segment.names.len(),
                out.wf(),
                out@ == with_segment_upto(start, *segment, j as int),
            decreases segment.names.len() - j,
        {
            match &segment.names[j] {
                Some(name) => {
                    match segment.base.checked_add(j as u64) {
                        Some(index) => {
                            out.insert(name.as_str(), index);
                        },
                        None => {},
                    }
                },
                None => {},
            }
            j += 1;
        }
        i += 1;
    }
    out
}

/// Where the symbol stands in the fat module as the running process knows
/// it: its index in the table of indirect functions for WebAssembly, its
/// address otherwise.
pub open spec fn old_place(cache: ModuleCache, wasm: bool, name: Seq<char>) -> Option<u64> {
    let table = if wasm {
        cache.ifuncs@
    } else {
        cache.symbols@
    };
    if table.contains_key(name) {
        Some(table[name])
    } else {
        None
    }
}

/// The pairs of old and new place for the first `upto` entries of a jump
/// table's map, in their order; an entry without an old place gives none.
pub open spec fn places_upto(entries: Seq<Symbol>, cache: ModuleCache, wasm: bool, upto: int) -> Seq<
    (u64, u64),
>
    decreases upto,
{
    if upto <= 0 {
        Seq::empty()
    } else {
        match old_place(cache, wasm, entries[upto - 1].name@) {
            Some(old) => places_upto(entries, cache, wasm, upto - 1).push(
                (old, entries[upto - 1].address),
            ),
            None => places_upto(entries, cache, wasm, upto - 1),
        }
    }
}

/// The jump table as the running process applies it: for each replaced
/// symbol, from its place in the fat module to its address in the patch.
pub fn place_map(table: &JumpTable, cache: &ModuleCache, wasm: bool) -> (out: Vec<(u64, u64)>)
    ensures
        out@ == places_upto(table.map.entries@, *cache, wasm, table.map.entries@.len() as int),
{
    let mut out: Vec<(u64, u64)> = Vec::new();
    let mut i: usize = 0;
    while i < table.map.entries.len()
        invariant
            i <= table.map.entries.len(),
            out@ == places_upto(table.map.entries@, *cache, wasm, i as int),
        decreases table.map.entries.len() - i,
    {
        let entry = &table.map.entries[i];
        let old = if wasm {
            cache.ifuncs.address_of(entry.name.as_str())
        } else {
            cache.symbols.address_of(entry.name.as_str())
        };
        match old {
            Some(place) => {
                out.push((place, entry.address));
            },
            None => {},
        }
        i += 1;
    }
    out
}

} // verus!
