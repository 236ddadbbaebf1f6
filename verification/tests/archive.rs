use hotpatch::ar_scan::is_readable;
use hotpatch::archive::{
    archive_file_name, archive_hash, cached_archive, dedup, gather, hash_prefix, made_archive,
    member_fate, must_rebuild, read_members, rlibs_list_file_name, rlibs_list_text, write_members,
    ArchiveError, FatArchive, Member, MemberFate, RlibStamp,
};

fn strings(v: &[&str]) -> Vec<String> {
    v.iter().map(|s| s.to_string()).collect()
}

fn stamp(path: &str, size: u64, modified: u64) -> RlibStamp {
    RlibStamp { path: path.to_string(), size, modified }
}

fn member(name: &str, data: &[u8]) -> Member {
    Member {
        identifier: name.as_bytes().to_vec(),
        mtime: 7,
        uid: 1,
        gid: 2,
        mode: 0o644,
        size: data.len() as u64,
        data: data.to_vec(),
    }
}

fn rlib(members: &[(&str, &[u8])]) -> Vec<u8> {
    let mut builder = ar::Builder::new(Vec::new());
    for (name, data) in members {
        let mut header = ar::Header::new(name.as_bytes().to_vec(), data.len() as u64);
        header.set_mtime(11);
        header.set_mode(0o600);
        builder.append(&header, *data).unwrap();
    }
    builder.into_inner().unwrap()
}

fn names_and_data(bytes: &[u8]) -> Vec<(String, Vec<u8>, u64, u32)> {
    let mut archive = ar::Archive::new(bytes);
    let mut out = Vec::new();
    while let Some(entry) = archive.next_entry() {
        let mut entry = entry.unwrap();
        let mut data = Vec::new();
        std::io::Read::read_to_end(&mut entry, &mut data).unwrap();
        let header = entry.header();
        out.push((
            String::from_utf8(header.identifier().to_vec()).unwrap(),
            data,
            header.mtime(),
            header.mode(),
        ));
    }
    out
}

#[test]
fn the_hash_is_the_start_of_the_oid_uuid_of_the_stamps() {
    let stamps = vec![
        stamp("/w/target/debug/deps/liba-1.rlib", 1024, 1700000000),
        stamp("/rust/lib/libstd-2.rlib", 0, 0),
    ];
    let name = "liba-1.rlib-1024-1700000000libstd-2.rlib-0-0";
    let expected = uuid::Uuid::new_v5(&uuid::Uuid::NAMESPACE_OID, name.as_bytes()).to_string();
    let hash = archive_hash(&stamps);
    assert_eq!(hash.len(), 8);
    assert_eq!(hash, &expected[..8]);
    assert_ne!(hash, &name[..8]);
}

#[test]
fn the_hash_of_no_rlibs_is_that_of_the_empty_name() {
    let expected = uuid::Uuid::new_v5(&uuid::Uuid::NAMESPACE_OID, b"").to_string();
    assert_eq!(archive_hash(&Vec::new()), &expected[..8]);
}

#[test]
fn the_hash_is_stable_under_a_move_of_the_rlibs() {
    let here = vec![stamp("/a/liba.rlib", 5, 9), stamp("/a/libb.rlib", 6, 10)];
    let there = vec![stamp("/elsewhere/x/liba.rlib", 5, 9), stamp("libb.rlib", 6, 10)];
    assert_eq!(archive_hash(&here), archive_hash(&there));
    let resized = vec![stamp("/a/liba.rlib", 5, 9), stamp("/a/libb.rlib", 7, 10)];
    assert_ne!(archive_hash(&here), archive_hash(&resized));
    let swapped = vec![stamp("/a/libb.rlib", 6, 10), stamp("/a/liba.rlib", 5, 9)];
    assert_ne!(archive_hash(&here), archive_hash(&swapped));
}

#[test]
fn the_hash_prefix_has_eight_characters_at_most() {
    assert_eq!(hash_prefix("6ba7b812-9dad-11d1-80b4-00c04fd430c8"), "6ba7b812");
    assert_eq!(hash_prefix("12345678"), "12345678");
    assert_eq!(hash_prefix("1234"), "1234");
    assert_eq!(hash_prefix(""), "");
}

#[test]
fn the_cache_files_are_named_by_the_hash() {
    assert_eq!(archive_file_name("0a1b2c3d"), "libdeps-0a1b2c3d.a");
    assert_eq!(rlibs_list_file_name("0a1b2c3d"), "rlibs-0a1b2c3d.txt");
}

#[test]
fn a_debug_build_always_rebuilds() {
    assert!(must_rebuild(true, true, true));
    assert!(!must_rebuild(true, true, false));
    assert!(must_rebuild(false, true, false));
    assert!(must_rebuild(true, false, false));
    assert!(must_rebuild(false, false, true));
}

#[test]
fn members_are_sorted_by_name_and_size() {
    assert_eq!(member_fate(&b"lib.rmeta".to_vec(), 10), MemberFate::Skipped);
    assert_eq!(member_fate(&b"demo.1.rcgu.o".to_vec(), 0), MemberFate::Skipped);
    assert_eq!(member_fate(&b"demo.1.rcgu.o".to_vec(), 10), MemberFate::Archived);
    assert_eq!(member_fate(&b"thing.obj".to_vec(), 1), MemberFate::Archived);
    assert_eq!(member_fate(&b"plain.o".to_vec(), 10), MemberFate::Deferred);
    assert_eq!(member_fate(&b"libz.so".to_vec(), 10), MemberFate::Deferred);
    assert_eq!(member_fate(&b"libz.dylib".to_vec(), 10), MemberFate::Deferred);
    assert_eq!(member_fate(&b"z.dll".to_vec(), 10), MemberFate::Deferred);
    assert_eq!(member_fate(&b"z.lib".to_vec(), 10), MemberFate::Deferred);
    assert_eq!(member_fate(&b"rcgu.o".to_vec(), 10), MemberFate::Deferred);
    assert_eq!(member_fate(&b"".to_vec(), 10), MemberFate::Deferred);
    assert_eq!(member_fate(&[0xff, 0xfe].to_vec(), 10), MemberFate::Deferred);
}

#[test]
fn only_object_files_enter_the_archive() {
    let contents = rlib(&[
        ("lib.rmeta", b"meta"),
        ("demo.1.rcgu.o", b"first!"),
        ("empty.rcgu.o", b""),
        ("helper.o", b"c code"),
        ("demo.with.a.long.name.2.rcgu.o", b"second"),
        ("win.obj", b"coff"),
    ]);
    let mut archive = FatArchive::new();
    assert_eq!(archive.add_rlib("/w/target/liba.rlib", contents), Ok(()));
    assert!(archive.has_contents);
    assert_eq!(archive.kept_rlibs, strings(&["/w/target/liba.rlib"]));
    let bytes = archive.to_bytes();
    let written = names_and_data(&bytes);
    assert_eq!(
        written,
        vec![
            ("demo.1.rcgu.o".to_string(), b"first!".to_vec(), 11, 0o600),
            ("demo.with.a.long.name.2.rcgu.o".to_string(), b"second".to_vec(), 11, 0o600),
            ("win.obj".to_string(), b"coff".to_vec(), 11, 0o600),
        ]
    );
    for (name, data, _, _) in written {
        assert!(name.ends_with(".rcgu.o") || name.ends_with(".obj"));
        assert!(!data.is_empty());
    }
}

#[test]
fn an_rlib_of_objects_only_is_not_kept_for_the_linker() {
    let contents = rlib(&[("lib.rmeta", b"meta"), ("a.rcgu.o", b"aa")]);
    let mut archive = FatArchive::new();
    assert_eq!(archive.add_rlib("/w/liba.rlib", contents), Ok(()));
    assert!(archive.kept_rlibs.is_empty());
    assert_eq!(archive.members.len(), 1);
    assert_eq!(archive.members[0].identifier, b"a.rcgu.o".to_vec());
    assert_eq!(archive.members[0].data, b"aa".to_vec());
}

#[test]
fn rlibs_outside_the_working_directory_stay_with_the_linker() {
    let mut archive = FatArchive::new();
    archive.keep_for_linker("/rust/lib/libstd.rlib");
    archive.keep_for_linker("/rust/lib/libstd.rlib");
    archive.keep_for_linker("/rust/lib/libcore.rlib");
    archive.keep_for_linker("/rust/lib/libstd.rlib");
    assert!(!archive.has_contents);
    assert_eq!(
        archive.kept_for_linker(),
        strings(&["/rust/lib/libstd.rlib", "/rust/lib/libcore.rlib", "/rust/lib/libstd.rlib"])
    );
    assert!(archive.to_bytes().is_empty());
}

#[test]
fn an_archive_has_contents_where_it_has_a_member() {
    let mut archive = FatArchive::new();
    assert!(!archive.has_contents);
    let contents = rlib(&[("lib.rmeta", b"meta")]);
    assert_eq!(archive.add_rlib("/w/liba.rlib", contents), Ok(()));
    assert!(!archive.has_contents);
    assert!(archive.members.is_empty());
    assert!(!made_archive(&archive).has_contents);
    let contents = rlib(&[("a.rcgu.o", b"a")]);
    assert_eq!(archive.add_rlib("/w/libb.rlib", contents), Ok(()));
    assert!(made_archive(&archive).has_contents);
}

#[test]
fn a_reused_archive_has_contents_and_the_rlibs_of_its_list() {
    let side = cached_archive("/rust/libstd.rlib\n/rust/libstd.rlib\n/rust/libcore.rlib\n");
    assert!(side.has_contents);
    assert_eq!(side.kept_rlibs, strings(&["/rust/libstd.rlib", "/rust/libcore.rlib"]));
    assert!(cached_archive("").kept_rlibs.is_empty());
}

#[test]
fn what_is_no_archive_has_no_members() {
    let mut archive = FatArchive::new();
    assert_eq!(archive.add_rlib("/w/liba.rlib", b"this is no archive".to_vec()), Ok(()));
    assert!(archive.members.is_empty());
    assert!(archive.kept_rlibs.is_empty());
    assert!(!archive.has_contents);
}

#[test]
fn a_truncated_object_is_refused_and_changes_nothing() {
    let mut archive = FatArchive::new();
    assert_eq!(archive.add_members("/w/liba.rlib", vec![member("a.rcgu.o", b"aa")]), Ok(()));
    let mut short = member("b.rcgu.o", b"bb");
    short.size = 3;
    let out = archive.add_members("/w/libb.rlib", vec![member("c.o", b"x"), short]);
    assert_eq!(out, Err(ArchiveError::TruncatedMember));
    assert_eq!(archive.members.len(), 1);
    assert!(archive.kept_rlibs.is_empty());
    // A truncated member that would not enter the archive does no harm.
    let mut meta = member("lib.rmeta", b"m");
    meta.size = 100;
    assert_eq!(archive.add_members("/w/libc.rlib", vec![meta]), Ok(()));
}

#[test]
fn a_truncated_rlib_is_refused() {
    let mut contents = rlib(&[("a.rcgu.o", b"0123456789")]);
    contents.truncate(contents.len() - 4);
    let mut archive = FatArchive::new();
    assert!(!is_readable(&contents));
    assert_eq!(archive.add_rlib("/w/liba.rlib", contents), Err(ArchiveError::Unreadable));
    assert!(archive.members.is_empty());
}

#[test]
fn headers_are_carried_over() {
    let mut archive = FatArchive::new();
    assert_eq!(archive.add_members("/w/liba.rlib", vec![member("a.rcgu.o", b"abc")]), Ok(()));
    let bytes = archive.to_bytes();
    let mut reader = ar::Archive::new(&bytes[..]);
    let entry = reader.next_entry().unwrap().unwrap();
    assert_eq!(entry.header().identifier(), b"a.rcgu.o");
    assert_eq!(entry.header().mtime(), 7);
    assert_eq!(entry.header().uid(), 1);
    assert_eq!(entry.header().gid(), 2);
    assert_eq!(entry.header().mode(), 0o644);
    assert_eq!(entry.header().size(), 3);
}

#[test]
fn immediate_repeats_are_dropped() {
    assert_eq!(dedup(&strings(&["a", "a", "b", "a", "a", "a"])), strings(&["a", "b", "a"]));
    assert_eq!(dedup(&Vec::new()), Vec::<String>::new());
}

#[test]
fn the_list_is_read_back_as_it_was_written() {
    for kept in [strings(&["/a/x.rlib", "/b/y.rlib", "/b/y.rlib"]), strings(&["", "x"]), Vec::new()] {
        assert_eq!(hotpatch::capture::lines(&rlibs_list_text(&kept)), kept);
    }
}

#[test]
fn the_list_has_one_rlib_per_line() {
    assert_eq!(rlibs_list_text(&strings(&["/a/x.rlib", "/b/y.rlib"])), "/a/x.rlib\n/b/y.rlib");
    assert_eq!(rlibs_list_text(&strings(&["/a/x.rlib"])), "/a/x.rlib");
    assert_eq!(rlibs_list_text(&Vec::new()), "");
}

#[test]
fn members_are_read_and_written_in_order() {
    let contents = rlib(&[("b.rcgu.o", b"bb"), ("lib.rmeta", b"m"), ("a.rcgu.o", b"a")]);
    let members = read_members(contents.clone()).unwrap();
    let names: Vec<&[u8]> = members.iter().map(|m| &m.identifier[..]).collect();
    assert_eq!(names, vec![&b"b.rcgu.o"[..], &b"lib.rmeta"[..], &b"a.rcgu.o"[..]]);
    assert_eq!(members[0].data, b"bb".to_vec());
    assert_eq!(members[0].size, 2);
    assert_eq!(members[0].mtime, 11);
    assert_eq!(members[0].mode, 0o600);
    assert_eq!(write_members(&members), contents);
    assert_eq!(read_members(Vec::new()).unwrap().len(), 0);
    assert!(write_members(&Vec::new()).is_empty());
}

fn header(name: &str, size: &str) -> Vec<u8> {
    let mut h = format!("{name:<16}{:<12}{:<6}{:<6}{:<8}{size:<10}`\n", 0, 0, 0, 644).into_bytes();
    assert_eq!(h.len(), 60);
    h.truncate(60);
    h
}

fn archive_of(parts: &[&[u8]]) -> Vec<u8> {
    let mut out = b"!<arch>\n".to_vec();
    for part in parts {
        out.extend_from_slice(part);
    }
    out
}

#[test]
fn a_long_name_beyond_the_table_is_refused() {
    let bad = archive_of(&[&header("/9", "0")]);
    assert_eq!(bad.len(), 68);
    assert!(!is_readable(&bad));
    assert_eq!(read_members(bad.clone()).err(), Some(ArchiveError::Unreadable));
    let mut archive = FatArchive::new();
    assert_eq!(archive.add_rlib("/w/liba.rlib", bad), Err(ArchiveError::Unreadable));
    assert!(archive.members.is_empty());

    // The index may point at the table's end, but not beyond it.
    let table = b"a_very_long_name.rcgu.o/\n";
    assert_eq!(table.len(), 25);
    let at_end = archive_of(&[&header("//", "25"), table, b"\n", &header("/25", "0")]);
    assert!(is_readable(&at_end));
    let beyond = archive_of(&[&header("//", "25"), table, b"\n", &header("/26", "0")]);
    assert!(!is_readable(&beyond));
    assert_eq!(read_members(beyond).err(), Some(ArchiveError::Unreadable));
}

#[test]
fn odd_headers_are_refused() {
    assert!(is_readable(&Vec::new()));
    assert!(is_readable(&b"no archive".to_vec()));
    assert!(is_readable(&b"!<arch>\n".to_vec()));
    assert!(is_readable(&archive_of(&[&header("a.o/", "2"), b"ab"])));
    assert!(is_readable(&archive_of(&[&header("a.o/", "1"), b"a"])));
    assert!(is_readable(&archive_of(&[&header("a.o/", "1"), b"a\n", &header("b.o/", "0")])));
    // A header that is cut short, a size in other than plain digits, a
    // member beyond the end, a wrong fill byte.
    assert!(!is_readable(&archive_of(&[&header("a.o/", "2")[..59]])));
    assert!(!is_readable(&archive_of(&[&header("a.o/", "+2"), b"ab"])));
    assert!(!is_readable(&archive_of(&[&header("a.o/", ""), b"ab"])));
    assert!(!is_readable(&archive_of(&[&header("a.o/", "2 1"), b"ab"])));
    assert!(!is_readable(&archive_of(&[&header("a.o/", "3"), b"ab"])));
    assert!(!is_readable(&archive_of(&[&header("a.o/", "1"), b"a ", &header("b.o/", "0")])));
    // A name that begins with a slash and is neither table nor index.
    assert!(!is_readable(&archive_of(&[&header("/x", "0")])));
    assert!(!is_readable(&archive_of(&[&header("/+0", "0")])));
    // The symbol table and extended names.
    assert!(is_readable(&archive_of(&[&header("/", "4"), b"\0\0\0\0"])));
    assert!(is_readable(&archive_of(&[&header("#1/4", "6"), b"ab\0\0xy"])));
    assert!(!is_readable(&archive_of(&[&header("#1/3", "5"), b"ab\0xy\n"])));
    assert!(!is_readable(&archive_of(&[&header("#1/8", "6"), b"ab\0\0xy"])));
}

#[test]
fn archives_with_long_names_are_read() {
    let long = "demo-0123456789abcdef.demo.0123456789abcdef-cgu.00.rcgu.o";
    let names = vec![long.as_bytes().to_vec(), b"lib.rmeta".to_vec()];
    let mut gnu = ar::GnuBuilder::new(Vec::new(), names);
    gnu.append(&ar::Header::new(long.as_bytes().to_vec(), 3), &b"abc"[..]).unwrap();
    gnu.append(&ar::Header::new(b"lib.rmeta".to_vec(), 1), &b"m"[..]).unwrap();
    let bytes = gnu.into_inner().unwrap();
    assert!(is_readable(&bytes));
    let members = read_members(bytes).unwrap();
    assert_eq!(members.len(), 2);
    assert_eq!(members[0].identifier, long.as_bytes().to_vec());
    assert_eq!(members[0].data, b"abc".to_vec());
    assert_eq!(members[1].identifier, b"lib.rmeta".to_vec());

    let bsd = rlib(&[(long, b"abc"), ("with space.rcgu.o", b"d")]);
    assert!(is_readable(&bsd));
    let members = read_members(bsd).unwrap();
    assert_eq!(members.len(), 2);
    assert_eq!(members[0].identifier, long.as_bytes().to_vec());
    assert_eq!(members[1].identifier, b"with space.rcgu.o".to_vec());
    assert_eq!(members[1].data, b"d".to_vec());
}

#[test]
fn the_archive_of_a_link_line_is_gathered_rlib_by_rlib() {
    let rlibs = strings(&[
        "/rust/lib/libstd.rlib",
        "/w/target/deps/libb.rlib",
        "/w2/target/deps/libz.rlib",
        "/w/target/deps/liba.rlib",
        "/rust/lib/libstd.rlib",
    ]);
    let contents = vec![
        None,
        Some(rlib(&[("lib.rmeta", b"m"), ("b.1.rcgu.o", b"b1"), ("b.0.rcgu.o", b"b0")])),
        Some(b"never read".to_vec()),
        Some(rlib(&[("a.0.rcgu.o", b"a0"), ("helper.o", b"c"), ("empty.rcgu.o", b"")])),
        None,
    ];
    let archive = gather("/w", &rlibs, contents).unwrap();
    let names: Vec<&[u8]> = archive.members.iter().map(|m| &m.identifier[..]).collect();
    assert_eq!(names, vec![&b"b.1.rcgu.o"[..], &b"b.0.rcgu.o"[..], &b"a.0.rcgu.o"[..]]);
    assert_eq!(archive.members[0].data, b"b1".to_vec());
    assert_eq!(
        archive.kept_rlibs,
        strings(&[
            "/rust/lib/libstd.rlib",
            "/w2/target/deps/libz.rlib",
            "/w/target/deps/liba.rlib",
            "/rust/lib/libstd.rlib",
        ])
    );
    assert!(archive.has_contents);
    let written = names_and_data(&archive.to_bytes());
    assert_eq!(written.len(), 3);
    assert_eq!(written[2].0, "a.0.rcgu.o");
}

#[test]
fn gathering_stops_at_the_first_rlib_that_cannot_be_taken() {
    let rlibs = strings(&["/w/liba.rlib", "/w/libb.rlib"]);
    let unreadable = archive_of(&[&header("/9", "0")]);
    let out = gather("/w", &rlibs, vec![Some(rlib(&[("a.rcgu.o", b"a")])), Some(unreadable.clone())]);
    assert_eq!(out.err(), Some(ArchiveError::Unreadable));
    // Outside the working directory the same bytes are never looked at.
    let out = gather("/elsewhere", &rlibs, vec![None, Some(unreadable)]).unwrap();
    assert!(out.members.is_empty());
    assert!(!out.has_contents);
    assert_eq!(out.kept_rlibs, rlibs);
    let none = gather("/w", &Vec::new(), Vec::new()).unwrap();
    assert!(none.members.is_empty() && none.kept_rlibs.is_empty());
}

#[test]
fn what_the_scan_admits_the_reader_takes() {
    let long = "demo-0123456789abcdef.demo.0123456789abcdef-cgu.00.rcgu.o";
    let names = vec![long.as_bytes().to_vec(), b"b.o".to_vec(), b"another_quite_long_name.obj".to_vec()];
    let mut gnu = ar::GnuBuilder::new(Vec::new(), names);
    gnu.append(&ar::Header::new(long.as_bytes().to_vec(), 3), &b"abc"[..]).unwrap();
    gnu.append(&ar::Header::new(b"b.o".to_vec(), 2), &b"xy"[..]).unwrap();
    gnu.append(&ar::Header::new(b"another_quite_long_name.obj".to_vec(), 1), &b"z"[..]).unwrap();
    let seeds = vec![
        gnu.into_inner().unwrap(),
        rlib(&[(long, b"abc"), ("b.o", b"xy"), ("with space.rcgu.o", b"d")]),
        archive_of(&[&header("//", "6"), b"ab.o/\n", &header("/0", "1"), b"a\n", &header("/", "2"), b"\0\0"]),
        archive_of(&[&header("#1/4", "6"), b"ab\0\0xy", &header("//", "4"), b"x.o/", &header("/2", "0")]),
    ];
    let alphabet: &[u8] = b"0123456789 /#+-\n`a";
    let mut state: u64 = 0x2545F4914F6CDD1D;
    let mut next = move |bound: usize| {
        state = state.wrapping_mul(6364136223846793005).wrapping_add(1442695040888963407);
        ((state >> 33) as usize) % bound
    };
    let mut admitted = 0;
    for round in 0..40000 {
        let mut bytes = seeds[round % seeds.len()].clone();
        for _ in 0..(1 + next(4)) {
            match next(6) {
                0 => {
                    if !bytes.is_empty() {
                        let at = next(bytes.len());
                        bytes.truncate(at);
                    }
                },
                1 => {
                    let at = next(bytes.len() + 1);
                    bytes.insert(at, alphabet[next(alphabet.len())]);
                },
                _ => {
                    if !bytes.is_empty() {
                        let at = next(bytes.len());
                        bytes[at] = alphabet[next(alphabet.len())];
                    }
                },
            }
        }
        if is_readable(&bytes) {
            admitted += 1;
            // The reader must take what the scan admits without unwinding.
            let members = read_members(bytes.clone()).unwrap();
            for m in &members {
                assert!(m.data.len() as u64 <= m.size);
            }
        } else {
            assert_eq!(read_members(bytes).err(), Some(ArchiveError::Unreadable));
        }
    }
    assert!(admitted > 100);
}
