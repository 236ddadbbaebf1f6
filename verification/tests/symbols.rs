use hotpatch::symbols::{
    create_jump_table, defined_symbols, ifunc_table, place_map, resolve_stub, undefined_in_patch,
    ModuleCache, ObjectSymbol, StubError, SymbolTable, TableSegment,
};

fn strings(v: &[&str]) -> Vec<String> {
    v.iter().map(|s| s.to_string()).collect()
}

fn table(entries: &[(&str, u64)]) -> SymbolTable {
    let mut t = SymbolTable::new();
    for (name, address) in entries {
        t.insert(name, *address);
    }
    t
}

fn cache() -> ModuleCache {
    ModuleCache {
        symbols: table(&[("main", 0x1000), ("_ZN4core3fmt5write", 0x2040), ("helper", 0x3000)]),
        ifuncs: table(&[("main", 1), ("helper", 7)]),
    }
}

#[test]
fn a_table_maps_names_to_addresses() {
    let mut t = SymbolTable::new();
    assert_eq!(t.len(), 0);
    assert_eq!(t.address_of("main"), None);
    t.insert("main", 10);
    t.insert("other", 20);
    assert_eq!(t.address_of("main"), Some(10));
    assert_eq!(t.address_of("other"), Some(20));
    assert!(t.defines("main"));
    assert!(!t.defines("mai"));
    t.insert("main", 30);
    assert_eq!(t.len(), 2);
    assert_eq!(t.address_of("main"), Some(30));
    assert_eq!(t.address_of("other"), Some(20));
}

#[test]
fn the_cache_answers_for_the_fat_module() {
    let c = cache();
    assert_eq!(c.address_of("_ZN4core3fmt5write"), Some(0x2040));
    assert_eq!(c.address_of("absent"), None);
    let empty = ModuleCache::new();
    assert_eq!(empty.address_of("main"), None);
}

#[test]
fn the_stub_moves_each_address_by_the_reference() {
    let undefined = strings(&["_ZN4core3fmt5write", "main", "_ZN4core3fmt5write"]);
    let stub = resolve_stub(&cache(), &undefined, &SymbolTable::new(), 0xDEADBEEF000).unwrap();
    assert_eq!(stub.len(), 2);
    assert_eq!(stub.address_of("_ZN4core3fmt5write"), Some(0x2040 + 0xDEADBEEF000));
    assert_eq!(stub.address_of("main"), Some(0x1000 + 0xDEADBEEF000));
    assert_eq!(stub.address_of("helper"), None);
}

#[test]
fn a_symbol_of_a_shared_library_needs_no_stub() {
    let undefined = strings(&["malloc", "main"]);
    let supplied = table(&[("malloc", 0), ("main", 0)]);
    let stub = resolve_stub(&cache(), &undefined, &supplied, 16).unwrap();
    assert_eq!(stub.len(), 1);
    assert_eq!(stub.address_of("malloc"), None);
    assert_eq!(stub.address_of("main"), Some(0x1010));
}

#[test]
fn an_unresolved_symbol_fails_the_stub() {
    let undefined = strings(&["main", "nowhere", "also_nowhere"]);
    let out = resolve_stub(&cache(), &undefined, &table(&[("malloc", 0)]), 16);
    assert_eq!(out.err(), Some(StubError::Unresolved(1)));
}

#[test]
fn an_address_beyond_64_bits_fails_the_stub() {
    let undefined = strings(&["helper", "main"]);
    let out = resolve_stub(&cache(), &undefined, &SymbolTable::new(), u64::MAX - 0x2fff);
    assert_eq!(out.err(), Some(StubError::AddressOverflow(0)));
    let fits = resolve_stub(&cache(), &strings(&["helper"]), &SymbolTable::new(), u64::MAX - 0x3000).unwrap();
    assert_eq!(fits.address_of("helper"), Some(u64::MAX));
}

#[test]
fn no_undefined_symbols_give_an_empty_stub() {
    let stub = resolve_stub(&cache(), &Vec::new(), &SymbolTable::new(), 5).unwrap();
    assert_eq!(stub.len(), 0);
}

#[test]
fn the_jump_table_holds_what_both_modules_define() {
    let patch = table(&[("main", 0x10), ("fresh", 0x20), ("_ZN4core3fmt5write", 0x30)]);
    let jt = create_jump_table("/t/libdemo-patch-1.so", &patch, &cache(), 0xABC, false);
    assert_eq!(jt.lib, "/t/libdemo-patch-1.so");
    assert_eq!(jt.aslr_reference, 0xABC);
    assert_eq!(jt.map.len(), 2);
    assert_eq!(jt.map.address_of("main"), Some(0x10));
    assert_eq!(jt.map.address_of("_ZN4core3fmt5write"), Some(0x30));
    assert_eq!(jt.map.address_of("fresh"), None);
    assert_eq!(jt.map.address_of("helper"), None);
}

#[test]
fn the_wasm_jump_table_holds_only_table_functions() {
    let patch = table(&[("main", 0x10), ("_ZN4core3fmt5write", 0x30), ("helper", 0x40)]);
    let jt = create_jump_table("/t/p.wasm", &patch, &cache(), 0, true);
    assert_eq!(jt.map.len(), 2);
    assert_eq!(jt.map.address_of("main"), Some(0x10));
    assert_eq!(jt.map.address_of("helper"), Some(0x40));
    assert_eq!(jt.map.address_of("_ZN4core3fmt5write"), None);
}

#[test]
fn a_patch_leaves_undefined_what_none_of_its_objects_defines() {
    let symbol = |name: &str, address: u64, undefined: bool| ObjectSymbol {
        name: name.to_string(),
        address,
        undefined,
    };
    let symbols = vec![
        symbol("", 0, true),
        symbol("malloc", 0, true),
        symbol("helper", 0, true),
        symbol("main", 0x10, false),
        symbol("helper", 0x20, false),
        symbol("_ZN4core3fmt5write", 0, true),
        symbol("malloc", 0, true),
        symbol("main", 0x30, false),
        symbol("", 0x40, false),
    ];
    assert_eq!(undefined_in_patch(&symbols), strings(&["malloc", "_ZN4core3fmt5write", "malloc"]));
    let defined = defined_symbols(&symbols);
    assert_eq!(defined.len(), 2);
    assert_eq!(defined.address_of("main"), Some(0x30));
    assert_eq!(defined.address_of("helper"), Some(0x20));
    assert_eq!(defined.address_of("malloc"), None);
    assert_eq!(defined.address_of(""), None);
}

#[test]
fn table_functions_stand_at_base_and_place() {
    let segments = vec![
        TableSegment { base: 1, names: vec![Some("main".to_string()), None, Some("helper".to_string())] },
        TableSegment { base: 10, names: vec![Some("late".to_string()), Some("main".to_string())] },
        TableSegment { base: u64::MAX, names: vec![Some("last".to_string()), Some("beyond".to_string())] },
    ];
    let table = ifunc_table(&segments);
    assert_eq!(table.address_of("main"), Some(11));
    assert_eq!(table.address_of("helper"), Some(3));
    assert_eq!(table.address_of("late"), Some(10));
    assert_eq!(table.address_of("last"), Some(u64::MAX));
    assert_eq!(table.address_of("beyond"), None);
    assert_eq!(table.len(), 4);
    assert_eq!(ifunc_table(&Vec::new()).len(), 0);
}

#[test]
fn the_process_gets_old_and_new_places() {
    let patch = table(&[("main", 0x10), ("fresh", 0x20), ("_ZN4core3fmt5write", 0x30), ("helper", 0x40)]);
    let native = create_jump_table("/t/p.so", &patch, &cache(), 0, false);
    assert_eq!(place_map(&native, &cache(), false), vec![(0x1000, 0x10), (0x2040, 0x30), (0x3000, 0x40)]);
    let web = create_jump_table("/t/p.wasm", &patch, &cache(), 0, true);
    assert_eq!(place_map(&web, &cache(), true), vec![(1, 0x10), (7, 0x40)]);
    // Against another cache an entry without an old place gives no pair.
    assert_eq!(place_map(&native, &ModuleCache::new(), false), Vec::<(u64, u64)>::new());
}
