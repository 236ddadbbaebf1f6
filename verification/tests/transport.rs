use hotpatch::symbols::{JumpTable, SymbolTable};
use hotpatch::transport::{
    applies_to, aslr_from_query, hot_reload, parse_number, site_lib, updated_reference,
};

fn jump_table(lib: &str) -> JumpTable {
    let mut map = SymbolTable::new();
    map.insert("main", 0x10);
    JumpTable { lib: lib.to_string(), map, aslr_reference: 0xABC }
}

#[test]
fn numbers_are_decimal_or_hexadecimal() {
    assert_eq!(parse_number("0"), Some(0));
    assert_eq!(parse_number("42"), Some(42));
    assert_eq!(parse_number("+42"), Some(42));
    assert_eq!(parse_number("007"), Some(7));
    assert_eq!(parse_number("18446744073709551615"), Some(u64::MAX));
    assert_eq!(parse_number("18446744073709551616"), None);
    assert_eq!(parse_number("99999999999999999999999"), None);
    assert_eq!(parse_number("0xDEADBEEF000"), Some(0xDEADBEEF000));
    assert_eq!(parse_number("0xdeadbeef000"), Some(0xDEADBEEF000));
    assert_eq!(parse_number("0xffffffffffffffff"), Some(u64::MAX));
    assert_eq!(parse_number("0x10000000000000000"), None);
    assert_eq!(parse_number(""), None);
    assert_eq!(parse_number("+"), None);
    assert_eq!(parse_number("0x"), None);
    assert_eq!(parse_number("-1"), None);
    assert_eq!(parse_number("12a"), None);
    assert_eq!(parse_number(" 12"), None);
    assert_eq!(parse_number("+0x10"), None);
    assert_eq!(parse_number("0X10"), None);
    assert_eq!(parse_number("١٢"), None);
}

#[test]
fn the_handshake_reports_the_reference() {
    assert_eq!(aslr_from_query("aslr_reference=0xDEADBEEF000"), Some(0xDEADBEEF000));
    assert_eq!(aslr_from_query("aslr_reference=4096"), Some(4096));
    assert_eq!(aslr_from_query("build_id=7&aslr_reference=4096&pid=3"), Some(4096));
    assert_eq!(aslr_from_query("aslr_reference=0"), Some(0));
}

#[test]
fn only_the_first_reference_of_a_query_counts() {
    assert_eq!(aslr_from_query("aslr_reference=1&aslr_reference=2"), Some(1));
    assert_eq!(aslr_from_query("aslr_reference=x&aslr_reference=2"), None);
    assert_eq!(aslr_from_query("aslr_reference=&aslr_reference=2"), None);
}

#[test]
fn a_query_without_reference_reports_nothing() {
    assert_eq!(aslr_from_query(""), None);
    assert_eq!(aslr_from_query("pid=3"), None);
    assert_eq!(aslr_from_query("xaslr_reference=5"), None);
    assert_eq!(aslr_from_query("aslr_reference"), None);
    assert_eq!(aslr_from_query("&&"), None);
    assert_eq!(aslr_from_query("a=1&"), None);
}

#[test]
fn zero_and_nothing_leave_the_reference_as_it_was() {
    assert_eq!(updated_reference(0, Some(0xDEADBEEF000)), 0xDEADBEEF000);
    assert_eq!(updated_reference(5, Some(9)), 9);
    assert_eq!(updated_reference(5, Some(0)), 5);
    assert_eq!(updated_reference(5, None), 5);
    assert_eq!(updated_reference(0, aslr_from_query("aslr_reference=0xDEADBEEF000")), 0xDEADBEEF000);
    assert_eq!(updated_reference(0, aslr_from_query("")), 0);
}

#[test]
fn a_wasm_patch_is_loaded_from_the_site() {
    assert_eq!(site_lib("/w/target/wasm32-unknown-unknown/debug/libdemo-patch-17.wasm"), "/pkg/libdemo-patch-17.wasm");
    assert_eq!(site_lib("libdemo-patch-17.wasm"), "/pkg/libdemo-patch-17.wasm");
}

#[test]
fn a_hot_reload_names_its_process() {
    let msg = hot_reload(jump_table("/t/libdemo-patch-1.so"), Some(4711), false);
    assert_eq!(msg.for_pid, Some(4711));
    assert_eq!(msg.ms_elapsed, 0);
    assert_eq!(msg.jump_table.lib, "/t/libdemo-patch-1.so");
    assert_eq!(msg.jump_table.aslr_reference, 0xABC);
    assert_eq!(msg.jump_table.map.address_of("main"), Some(0x10));
    let web = hot_reload(jump_table("/t/debug/libdemo-patch-1.wasm"), None, true);
    assert_eq!(web.for_pid, None);
    assert_eq!(web.jump_table.lib, "/pkg/libdemo-patch-1.wasm");
    assert_eq!(web.jump_table.map.address_of("main"), Some(0x10));
}

#[test]
fn only_the_named_process_applies_a_patch() {
    assert!(applies_to(Some(4711), 4711));
    assert!(!applies_to(Some(4711), 4712));
    assert!(!applies_to(Some(0), 4711));
    assert!(!applies_to(None, 4711));
}
