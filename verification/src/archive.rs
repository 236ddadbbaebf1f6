//! The fat archive: one static archive of the project's own object files,
//! named by a hash of the rlibs it was made from.

use crate::ar_scan::{is_readable, readable};
use crate::argv::push_text;
use crate::capture::{lines, lines_of};
use crate::command::{join_with, joined_with};
use crate::paths::{base_name, file_name, is_under, starts_with_dir};
use crate::text::{chars_of, concat2, decimal, decimal_text, prefix_to, texts};
use vstd::prelude::*;

verus! {

/// What identifies one rlib for the hash: its path, its size in bytes and
/// its modification time in seconds since the epoch.
#[derive(Debug)]
pub struct RlibStamp {
    pub path: String,
    pub size: u64,
    pub modified: u64,
}

/// The text that one rlib adds to the hashed name: file name, size and
/// modification time, with `-` between them.
pub open spec fn stamp_text(stamp: RlibStamp) -> Seq<char> {
    base_name(stamp.path@) + "-"@ + decimal(stamp.size as nat) + "-"@ + decimal(
        stamp.modified as nat,
    )
}

/// The texts of the first `upto` stamps in a row.
pub open spec fn stamps_text_upto(stamps: Seq<RlibStamp>, upto: int) -> Seq<char>
    decreases upto,
{
    if upto <= 0 {
        Seq::empty()
    } else {
        stamps_text_upto(stamps, upto - 1) + stamp_text(stamps[upto - 1])
    }
}

/// The hashed name: the texts of all stamps in a row.
pub open spec fn stamps_text(stamps: Seq<RlibStamp>) -> Seq<char> {
    stamps_text_upto(stamps, stamps.len() as int)
}

/// The version 5 UUID of `name` in the OID namespace, in the hyphenated
/// lower-case form that `uuid` prints.
pub uninterp spec fn oid_uuid(name: Seq<char>) -> Seq<char>;

/// Calls `uuid::Uuid::new_v5` with `Uuid::NAMESPACE_OID` and the bytes of
/// `name`, and prints the result with its `Display`, which writes the
/// hyphenated form of 36 characters. The result is a function of `name`
/// alone; nothing more is claimed of it.
#[verifier::external_body]
fn oid_uuid_text(name: &str) -> (out: String)
    ensures
        out@ == oid_uuid(name@),
        out@.len() == 36,
{
    uuid::Uuid::new_v5(&uuid::Uuid::NAMESPACE_OID, name.as_bytes()).to_string()
}

/// The first eight characters of `uuid`; all of it where it is shorter.
pub open spec fn short_hash(uuid: Seq<char>) -> Seq<char> {
    if uuid.len() >= 8 {
        uuid.take(8)
    } else {
        uuid
    }
}

/// The hash of a set of rlibs.
pub open spec fn hash_of(stamps: Seq<RlibStamp>) -> Seq<char> {
    short_hash(oid_uuid(stamps_text(stamps)))
}

/// Cuts a printed UUID down to the hash that names the archive.
pub fn hash_prefix(uuid: &str) -> (out: String)
    ensures
        out@ == short_hash(uuid@),
{
    let n = uuid.unicode_len();
    if n >= 8 {
        prefix_to(uuid, 8)
    } else {
        uuid.to_owned()
    }
}

/// The hash of the rlibs that `stamps` describes, in their order: the
/// first eight characters of the UUID of their texts.
pub fn archive_hash(stamps: &Vec<RlibStamp>) -> (out: String)
    ensures
        out@ == hash_of(stamps@),
        out@.len() == 8,
{
    let mut name = String::new();
    let mut i: usize = 0;
    while i < stamps.len()
        invariant
            i <= stamps.len(),
            name@ == stamps_text_upto(stamps@, i as int),
        decreases stamps.len() - i,
    {
        let ghost before = name@;
        let stamp = &stamps[i];
        name.append(file_name(stamp.path.as_str()).as_str());
        name.append("-");
        name.append(decimal_text(stamp.size as u128).as_str());
        name.append("-");
        name.append(decimal_text(stamp.modified as u128).as_str());
        assert(name@ =~= before + stamp_text(stamps@[i as int]));
        i += 1;
    }
    let uuid = oid_uuid_text(name.as_str());
    hash_prefix(uuid.as_str())
}

/// Two lists of stamps agree in file name, size and modification time,
/// stamp by stamp.
pub open spec fn same_stamps(a: Seq<RlibStamp>, b: Seq<RlibStamp>) -> bool {
    &&& a.len() == b.len()
    &&& forall|i: int|
        0 <= i < a.len() ==> base_name(a[i].path@) == base_name(b[i].path@) && a[i].size
            == b[i].size && a[i].modified == b[i].modified
}

/// The hash is stable: rlibs with the same file names, sizes and
/// modification times in the same order hash alike, wherever they lie.
pub proof fn lemma_hash_stable(a: Seq<RlibStamp>, b: Seq<RlibStamp>)
    requires
        same_stamps(a, b),
    ensures
        hash_of(a) == hash_of(b),
{
    lemma_stamps_text_stable(a, b, a.len() as int);
}

/// Stamps that agree up to `upto` give the same text up to `upto`.
proof fn lemma_stamps_text_stable(a: Seq<RlibStamp>, b: Seq<RlibStamp>, upto: int)
    requires
        same_stamps(a, b),
        0 <= upto <= a.len(),
    ensures
        stamps_text_upto(a, upto) == stamps_text_upto(b, upto),
    decreases upto,
{
    if upto > 0 {
        lemma_stamps_text_stable(a, b, upto - 1);
    }
}

/// The file name of the archive with the given hash.
pub fn archive_file_name(hash: &str) -> (out: String)
    ensures
        out@ == "libdeps-"@ + hash@ + ".a"@,
{
    let mut out = concat2("libdeps-", hash);
    out.append(".a");
    out
}

/// The file name of the list of rlibs kept for the linker.
pub fn rlibs_list_file_name(hash: &str) -> (out: String)
    ensures
        out@ == "rlibs-"@ + hash@ + ".txt"@,
{
    let mut out = concat2("rlibs-", hash);
    out.append(".txt");
    out
}

/// Whether the archive has to be made anew: always in a debug build of the
/// driver, and otherwise unless both the archive and the list are there.
pub fn must_rebuild(archive_exists: bool, list_exists: bool, debug_build: bool) -> (r: bool)
    ensures
        r == (debug_build || !(archive_exists && list_exists)),
{
    debug_build || !(archive_exists && list_exists)
}

/// One member of an archive, as plain values.
#[derive(Debug)]
pub struct Member {
    pub identifier: Vec<u8>,
    pub mtime: u64,
    pub uid: u32,
    pub gid: u32,
    pub mode: u32,
    /// The size that the member's header states.
    pub size: u64,
    pub data: Vec<u8>,
}

/// One member of an archive, as the contracts see it.
pub struct MemberView {
    pub identifier: Seq<u8>,
    pub mtime: u64,
    pub uid: u32,
    pub gid: u32,
    pub mode: u32,
    pub size: u64,
    pub data: Seq<u8>,
}

impl View for Member {
    type V = MemberView;

    open spec fn view(&self) -> MemberView {
        MemberView {
            identifier: self.identifier@,
            mtime: self.mtime,
            uid: self.uid,
            gid: self.gid,
            mode: self.mode,
            size: self.size,
            data: self.data@,
        }
    }
}

/// The views of a list of members.
pub open spec fn member_views(v: Seq<Member>) -> Seq<MemberView> {
    v.map_values(|m: Member| m@)
}

/// What becomes of a member of an rlib.
#[derive(Clone, Copy, Debug, PartialEq, Eq, Structural)]
pub enum MemberFate {
    /// Metadata or an empty member: passed over.
    Skipped,
    /// Not an object of the compiler's making: the rlib stays with the
    /// linker on its account.
    Deferred,
    /// An object file that goes into the fat archive.
    Archived,
}

/// The bytes of `identifier` end with the characters of `suffix`.
pub open spec fn ends_with_text(identifier: Seq<u8>, suffix: Seq<char>) -> bool {
    &&& suffix.len() <= identifier.len()
    &&& forall|i: int|
        0 <= i < suffix.len() ==> identifier[identifier.len() - suffix.len() + i] as u32
            == suffix[i] as u32
}

/// What becomes of a member with the given name and stated size.
pub open spec fn fate_of(identifier: Seq<u8>, size: u64) -> MemberFate {
    if ends_with_text(identifier, ".rmeta"@) || size == 0 {
        MemberFate::Skipped
    } else if ends_with_text(identifier, ".rcgu.o"@) || ends_with_text(identifier, ".obj"@) {
        MemberFate::Archived
    } else {
        MemberFate::Deferred
    }
}

/// Whether the bytes of `identifier` end with the characters of `suffix`.
fn name_ends_with(identifier: &Vec<u8>, suffix: &str) -> (r: bool)
    ensures
        r == ends_with_text(identifier@, suffix@),
{
    let pat = chars_of(suffix);
    if pat.len() > identifier.len() {
        return false;
    }
    let off: usize = identifier.len() - pat.len();
    let mut i: usize = 0;
    while i < pat.len()
        invariant
            pat@ == suffix@,
            off + pat.len() == identifier.len(),
            i <= pat.len(),
            forall|j: int| 0 <= j < i ==> identifier@[off + j] as u32 == pat@[j] as u32,
        decreases pat.len() - i,
    {
        if identifier[off + i] as u32 != pat[i] as u32 {
            return false;
        }
        i += 1;
    }
    true
}

/// Decides what becomes of a member with the given name and stated size.
pub fn member_fate(identifier: &Vec<u8>, size: u64) -> (r: MemberFate)
    ensures
        r == fate_of(identifier@, size),
{
    if name_ends_with(identifier, ".rmeta") || size == 0 {
        MemberFate::Skipped
    } else if name_ends_with(identifier, ".rcgu.o") || name_ends_with(identifier, ".obj") {
        MemberFate::Archived
    } else {
        MemberFate::Deferred
    }
}

/// A reader of one archive: an `ar::Archive` over a buffer of bytes.
#[verifier::external_body]
pub struct ArchiveReader {
    inner: ar::Archive<std::io::Cursor<Vec<u8>>>,
}

/// A writer of one archive: an `ar::Builder` into a vector of bytes.
#[verifier::external_body]
pub struct ArchiveWriter {
    inner: ar::Builder<Vec<u8>>,
}

/// The members that `ar` reads from `contents`, in order, up to the end of
/// the archive or to the first entry that it cannot read.
pub uninterp spec fn members_of(contents: Seq<u8>) -> Seq<MemberView>;

/// The members that the reader has yet to yield, in order, up to the end of
/// its archive or to the first entry that it cannot read.
pub uninterp spec fn unread(archive: ArchiveReader) -> Seq<MemberView>;

/// The bytes that the reader was made on.
pub uninterp spec fn source(archive: ArchiveReader) -> Seq<u8>;

/// The members that were appended to the writer, in order.
pub uninterp spec fn appended(builder: ArchiveWriter) -> Seq<MemberView>;

/// The bytes that `ar` writes for an archive of `members`, in order.
pub uninterp spec fn archive_image(members: Seq<MemberView>) -> Seq<u8>;

/// Calls `ar::Archive::new` on a cursor over `contents`. Nothing is read
/// yet: what the reader will yield is what `ar` reads from `contents`.
#[verifier::external_body]
fn open_archive(contents: Vec<u8>) -> (archive: ArchiveReader)
    requires
        readable(contents@),
    ensures
        unread(archive) == members_of(contents@),
        source(archive) == contents@,
{
    ArchiveReader { inner: ar::Archive::new(std::io::Cursor::new(contents)) }
}

/// Calls `ar::Archive::next_entry` and hands the entry out as plain values:
/// the fields of its header, and the data that `read_to_end` gets from it.
/// The entry is the first of those that the reader had yet to yield. `None`
/// stands for the end of the archive and for an entry that `ar` cannot
/// read, after which it yields no more. `ar` looks a long name up in its
/// table by an index that it does not compare with the table's length: the
/// reader's bytes are such that every index lies within the table and
/// every member within the archive.
#[verifier::external_body]
fn next_member(archive: &mut ArchiveReader) -> (out: Option<Member>)
    requires
        readable(source(*old(archive))),
    ensures
        source(*final(archive)) == source(*old(archive)),
        match out {
            Some(m) => unread(*old(archive)) == seq![m@] + unread(*final(archive)),
            None => unread(*old(archive)).len() == 0 && unread(*final(archive)).len() == 0,
        },
{
    match archive.inner.next_entry() {
        Some(Ok(mut entry)) => {
            let mut data = Vec::new();
            let _ = std::io::Read::read_to_end(&mut entry, &mut data);
            let h = entry.header();
            let (identifier, size) = (h.identifier().to_vec(), h.size());
            let (mtime, uid, gid, mode) = (h.mtime(), h.uid(), h.gid(), h.mode());
            Some(Member { identifier, mtime, uid, gid, mode, size, data })
        },
        _ => None,
    }
}

/// Calls `ar::Builder::new` on an empty vector of bytes.
#[verifier::external_body]
fn new_builder() -> (builder: ArchiveWriter)
    ensures
        appended(builder).len() == 0,
{
    ArchiveWriter { inner: ar::Builder::new(Vec::new()) }
}

/// Calls `ar::Builder::append` with a header made of the member's fields
/// and with the member's data. The data has the size that the header
/// states, and the vector takes every write, so that the call succeeds.
#[verifier::external_body]
fn append_member(builder: &mut ArchiveWriter, m: &Member)
    requires
        m.data@.len() == m.size,
    ensures
        appended(*final(builder)) == appended(*old(builder)).push(m@),
{
    let mut header = ar::Header::new(m.identifier.clone(), m.size);
    header.set_mtime(m.mtime);
    header.set_uid(m.uid);
    header.set_gid(m.gid);
    header.set_mode(m.mode);
    let _ = builder.inner.append(&header, &m.data[..]);
}

/// Calls `ar::Builder::into_inner`, which hands out the vector that was
/// written to. The result is a function of the appended members alone;
/// nothing more is claimed of it.
#[verifier::external_body]
fn finish_builder(builder: ArchiveWriter) -> (out: Vec<u8>)
    ensures
        out@ == archive_image(appended(builder)),
{
    builder.inner.into_inner().unwrap_or_default()
}

/// Reads the members of an archive, after a scan of its headers has shown
/// that it can be read.
pub fn read_members(contents: Vec<u8>) -> (out: Result<Vec<Member>, ArchiveError>)
    ensures
        match out {
            Ok(members) => readable(contents@) && member_views(members@) == members_of(contents@),
            Err(e) => !readable(contents@) && e == ArchiveError::Unreadable,
        },
{
    if !is_readable(&contents) {
        return Err(ArchiveError::Unreadable);
    }
    let mut archive = open_archive(contents);
    let mut out: Vec<Member> = Vec::new();
    loop
        invariant
            readable(contents@),
            readable(source(archive)),
            members_of(contents@) == member_views(out@) + unread(archive),
        decreases unread(archive).len(),
    {
        let ghost before = member_views(out@);
        match next_member(&mut archive) {
            Some(m) => {
                out.push(m);
                assert(member_views(out@) =~= before.push(m@));
                assert(before + (seq![m@] + unread(archive)) =~= before.push(m@) + unread(archive));
            },
            None => {
                assert(before + unread(archive) =~= before);
                return Ok(out);
            },
        }
    }
}

/// Writes an archive of the members.
pub fn write_members(members: &Vec<Member>) -> (out: Vec<u8>)
    requires
        forall|i: int| 0 <= i < members@.len() ==> members@[i].data@.len() == members@[i].size,
    ensures
        out@ == archive_image(member_views(members@)),
{
    let mut builder = new_builder();
    let mut i: usize = 0;
    while i < members.len()
        invariant
            i <= members.len(),
            forall|i: int| 0 <= i < members@.len() ==> members@[i].data@.len() == members@[i].size,
            appended(builder) =~= member_views(members@).take(i as int),
        decreases members.len() - i,
    {
        append_member(&mut builder, &members[i]);
        i += 1;
    }
    assert(member_views(members@).take(members@.len() as int) =~= member_views(members@));
    finish_builder(builder)
}

/// Why an rlib cannot go into the fat archive.
#[derive(Clone, Copy, Debug, PartialEq, Eq, Structural)]
pub enum ArchiveError {
    /// The rlib's headers cannot be read: a number is not written in plain
    /// digits, a member reaches beyond the rlib's end, or a long name is
    /// looked up beyond the table of long names.
    Unreadable,
    /// An object file of the rlib is shorter than its header states.
    TruncatedMember,
}

/// What keeps an rlib with these bytes out of the fat archive, if anything
/// does.
pub open spec fn fault_of(contents: Seq<u8>) -> Option<ArchiveError> {
    if !readable(contents) {
        Some(ArchiveError::Unreadable)
    } else if truncated_upto(members_of(contents), members_of(contents).len() as int) {
        Some(ArchiveError::TruncatedMember)
    } else {
        None
    }
}

/// The members among the first `upto` that go into the fat archive.
pub open spec fn archived_upto(members: Seq<MemberView>, upto: int) -> Seq<MemberView>
    decreases upto,
{
    if upto <= 0 {
        Seq::empty()
    } else if fate_of(members[upto - 1].identifier, members[upto - 1].size)
        == MemberFate::Archived {
        archived_upto(members, upto - 1).push(members[upto - 1])
    } else {
        archived_upto(members, upto - 1)
    }
}

/// The members that go into the fat archive.
pub open spec fn archived(members: Seq<MemberView>) -> Seq<MemberView> {
    archived_upto(members, members.len() as int)
}

/// One of the first `upto` members keeps its rlib with the linker.
pub open spec fn defers_upto(members: Seq<MemberView>, upto: int) -> bool {
    exists|i: int|
        0 <= i < upto && fate_of(members[i].identifier, members[i].size) == MemberFate::Deferred
}

/// One of the first `upto` members goes into the fat archive but is shorter
/// than its header states.
pub open spec fn truncated_upto(members: Seq<MemberView>, upto: int) -> bool {
    exists|i: int|
        0 <= i < upto && fate_of(members[i].identifier, members[i].size) == MemberFate::Archived
            && members[i].data.len() != members[i].size
}

/// The texts of the first `upto` without those that repeat the one kept
/// before them.
pub open spec fn deduped_upto(s: Seq<Seq<char>>, upto: int) -> Seq<Seq<char>>
    decreases upto,
{
    if upto <= 0 {
        Seq::empty()
    } else {
        let before = deduped_upto(s, upto - 1);
        if before.len() > 0 && before.last() == s[upto - 1] {
            before
        } else {
            before.push(s[upto - 1])
        }
    }
}

/// `s` without the texts that repeat the one before them.
pub open spec fn deduped(s: Seq<Seq<char>>) -> Seq<Seq<char>> {
    deduped_upto(s, s.len() as int)
}

/// Copies `v` without the strings that repeat the one before them.
pub fn dedup(v: &Vec<String>) -> (out: Vec<String>)
    ensures
        texts(out@) == deduped(texts(v@)),
{
    let mut out: Vec<String> = Vec::new();
    let mut i: usize = 0;
    while i < v.len()
        invariant
            i <= v.len(),
            texts(out@) =~= deduped_upto(texts(v@), i as int),
        decreases v.len() - i,
    {
        let repeats = out.len() > 0 && crate::text::same_text(
            out[out.len() - 1].as_str(),
            v[i].as_str(),
        );
        if !repeats {
            push_text(&mut out, v[i].as_str());
        }
        i += 1;
    }
    out
}

/// The fat archive in the making.
#[derive(Debug)]
pub struct FatArchive {
    /// The object files gathered so far.
    pub members: Vec<Member>,
    /// The rlibs that stay with the linker, in the order they were seen.
    pub kept_rlibs: Vec<String>,
    /// Whether the archive holds anything for the linker to load.
    pub has_contents: bool,
}

impl FatArchive {
    /// The archive has contents where it has a member, and every member
    /// is an object file of the compiler's making, is not empty, and has
    /// the size that its header states.
    pub open spec fn wf(&self) -> bool {
        &&& self.has_contents == (self.members@.len() > 0)
        &&& forall|i: int|
            0 <= i < self.members@.len() ==> fate_of(
                (#[trigger] self.members@[i]).identifier@,
                self.members@[i].size,
            ) == MemberFate::Archived && self.members@[i].data@.len() == self.members@[i].size
    }

    /// An archive without members.
    pub fn new() -> (out: FatArchive)
        ensures
            out.wf(),
            out.members@.len() == 0,
            out.kept_rlibs@.len() == 0,
            !out.has_contents,
    {
        FatArchive { members: Vec::new(), kept_rlibs: Vec::new(), has_contents: false }
    }

    /// Leaves an rlib from outside the working directory to the linker.
    pub fn keep_for_linker(&mut self, rlib: &str)
        requires
            old(self).wf(),
        ensures
            final(self).wf(),
            final(self).members == old(self).members,
            final(self).has_contents == old(self).has_contents,
            texts(final(self).kept_rlibs@) == texts(old(self).kept_rlibs@).push(rlib@),
    {
        push_text(&mut self.kept_rlibs, rlib);
    }

    /// Sorts the members of one rlib: object files go into the archive, and
    /// the rlib stays with the linker where it holds anything else but
    /// metadata. Nothing changes where an object file is truncated.
    pub fn add_members(&mut self, rlib: &str, members: Vec<Member>) -> (out: Result<
        (),
        ArchiveError,
    >)
        requires
            old(self).wf(),
        ensures
            final(self).wf(),
            match out {
                Ok(()) => {
                    let ms = member_views(members@);
                    &&& !truncated_upto(ms, ms.len() as int)
                    &&& member_views(final(self).members@) == member_views(old(self).members@)
                        + archived(ms)
                    &&& texts(final(self).kept_rlibs@) == if defers_upto(ms, ms.len() as int) {
                        texts(old(self).kept_rlibs@).push(rlib@)
                    } else {
                        texts(old(self).kept_rlibs@)
                    }
                    &&& final(self).has_contents == (old(self).has_contents || archived(ms).len()
                        > 0)
                },
                Err(e) => {
                    &&& e == ArchiveError::TruncatedMember
                    &&& truncated_upto(member_views(members@), members@.len() as int)
                    &&& *final(self) == *old(self)
                },
            },
    {
        let ghost ms = member_views(members@);
        let mut objects: Vec<Member> = Vec::new();
        let mut defers = false;
        let mut truncated = false;
        for m in it: members
            invariant
                it.seq() == members@,
                ms == member_views(members@),
                defers == defers_upto(ms, it.index()),
                truncated == truncated_upto(ms, it.index()),
                member_views(objects@) =~= archived_upto(ms, it.index()),
                forall|i: int|
                    0 <= i < objects@.len() ==> fate_of(
                        (#[trigger] objects@[i]).identifier@,
                        objects@[i].size,
                    ) == MemberFate::Archived,
                !truncated ==> forall|i: int|
                    0 <= i < objects@.len() ==> (#[trigger] objects@[i]).data@.len()
                        == objects@[i].size,
        {
            let ghost k = it.index();
            assert(ms[k] == m@);
            match member_fate(&m.identifier, m.size) {
                MemberFate::Skipped => {},
                MemberFate::Deferred => {
                    defers = true;
                },
                MemberFate::Archived => {
                    if m.data.len() as u64 != m.size {
                        truncated = true;
                    }
                    objects.push(m);
                },
            }
        }
        if truncated {
            return Err(ArchiveError::TruncatedMember);
        }
        if objects.len() > 0 {
            self.has_contents = true;
        }
        let ghost kept = member_views(self.members@);
        self.members.append(&mut objects);
        assert(member_views(self.members@) =~= kept + archived(ms));
        if defers {
            push_text(&mut self.kept_rlibs, rlib);
        }
        Ok(())
    }

    /// Reads one rlib of the working directory and sorts its members.
    /// Nothing changes where the rlib cannot be read or an object file of
    /// it is truncated.
    pub fn add_rlib(&mut self, rlib: &str, contents: Vec<u8>) -> (out: Result<(), ArchiveError>)
        requires
            old(self).wf(),
        ensures
            final(self).wf(),
            match out {
                Ok(()) => {
                    let ms = members_of(contents@);
                    &&& fault_of(contents@).is_none()
                    &&& member_views(final(self).members@) == member_views(old(self).members@)
                        + archived(ms)
                    &&& texts(final(self).kept_rlibs@) == if defers_upto(ms, ms.len() as int) {
                        texts(old(self).kept_rlibs@).push(rlib@)
                    } else {
                        texts(old(self).kept_rlibs@)
                    }
                },
                Err(e) => {
                    &&& fault_of(contents@) == Some(e)
                    &&& *final(self) == *old(self)
                },
            },
    {
        match read_members(contents) {
            Ok(members) => self.add_members(rlib, members),
            Err(e) => Err(e),
        }
    }

    /// The archive's bytes.
    pub fn to_bytes(&self) -> (out: Vec<u8>)
        requires
            self.wf(),
        ensures
            out@ == archive_image(member_views(self.members@)),
    {
        write_members(&self.members)
    }

    /// The rlibs that stay with the linker, without immediate repeats.
    pub fn kept_for_linker(&self) -> (out: Vec<String>)
        ensures
            texts(out@) == deduped(texts(self.kept_rlibs@)),
    {
        dedup(&self.kept_rlibs)
    }
}

/// What keeps one of the first `upto` rlibs out of the fat archive: the
/// fault of the first rlib of the working directory that has one.
pub open spec fn first_fault_upto(
    working_dir: Seq<char>,
    rlibs: Seq<String>,
    contents: Seq<Option<Vec<u8>>>,
    upto: int,
) -> Option<ArchiveError>
    decreases upto,
{
    if upto <= 0 {
        None
    } else {
        match first_fault_upto(working_dir, rlibs, contents, upto - 1) {
            Some(e) => Some(e),
            None => if is_under(rlibs[upto - 1]@, working_dir) {
                fault_of(contents[upto - 1].unwrap()@)
            } else {
                None
            },
        }
    }
}

/// The members that the first `upto` rlibs give to the fat archive: the
/// object files of each rlib of the working directory, rlib by rlib.
pub open spec fn gathered_members_upto(
    working_dir: Seq<char>,
    rlibs: Seq<String>,
    contents: Seq<Option<Vec<u8>>>,
    upto: int,
) -> Seq<MemberView>
    decreases upto,
{
    if upto <= 0 {
        Seq::empty()
    } else if is_under(rlibs[upto - 1]@, working_dir) {
        gathered_members_upto(working_dir, rlibs, contents, upto - 1) + archived(
            members_of(contents[upto - 1].unwrap()@),
        )
    } else {
        gathered_members_upto(working_dir, rlibs, contents, upto - 1)
    }
}

/// The rlib at `i` stays with the linker: it lies outside the working
/// directory, or it holds a member that is neither an object file of the
/// compiler's making nor passed over.
pub open spec fn stays_with_linker(
    working_dir: Seq<char>,
    rlibs: Seq<String>,
    contents: Seq<Option<Vec<u8>>>,
    i: int,
) -> bool {
    !is_under(rlibs[i]@, working_dir) || defers_upto(
        members_of(contents[i].unwrap()@),
        members_of(contents[i].unwrap()@).len() as int,
    )
}

/// Those of the first `upto` rlibs that stay with the linker, in order.
pub open spec fn gathered_kept_upto(
    working_dir: Seq<char>,
    rlibs: Seq<String>,
    contents: Seq<Option<Vec<u8>>>,
    upto: int,
) -> Seq<Seq<char>>
    decreases upto,
{
    if upto <= 0 {
        Seq::empty()
    } else if stays_with_linker(working_dir, rlibs, contents, upto - 1) {
        gathered_kept_upto(working_dir, rlibs, contents, upto - 1).push(rlibs[upto - 1]@)
    } else {
        gathered_kept_upto(working_dir, rlibs, contents, upto - 1)
    }
}

/// Makes the fat archive of a link line.
///
/// `rlibs` holds the rlibs in the order of the link line, `contents` for
/// each rlib of the working directory its bytes. An rlib outside the
/// working directory stays with the linker and is not read. The object
/// files of the others enter the archive, rlib by rlib and member by
/// member, and such an rlib stays with the linker too where it holds
/// anything else but metadata.
pub fn gather(working_dir: &str, rlibs: &Vec<String>, contents: Vec<Option<Vec<u8>>>) -> (out: Result<
    FatArchive,
    ArchiveError,
>)
    requires
        rlibs@.len() == contents@.len(),
        forall|i: int|
            0 <= i < rlibs@.len() && is_under(rlibs@[i]@, working_dir@) ==> contents@[i].is_some(),
    ensures
        match out {
            Ok(archive) => {
                &&& archive.wf()
                &&& first_fault_upto(working_dir@, rlibs@, contents@, rlibs@.len() as int).is_none()
                &&& member_views(archive.members@) == gathered_members_upto(
                    working_dir@,
                    rlibs@,
                    contents@,
                    rlibs@.len() as int,
                )
                &&& texts(archive.kept_rlibs@) == gathered_kept_upto(
                    working_dir@,
                    rlibs@,
                    contents@,
                    rlibs@.len() as int,
                )
            },
            Err(e) => first_fault_upto(working_dir@, rlibs@, contents@, rlibs@.len() as int)
                == Some(e),
        },
{
    let mut archive = FatArchive::new();
    let mut k: usize = 0;
    for item in it: contents
        invariant
            it.seq() == contents@,
            rlibs@.len() == contents@.len(),
            forall|i: int|
                0 <= i < rlibs@.len() && is_under(rlibs@[i]@, working_dir@)
                    ==> contents@[i].is_some(),
            k == it.index(),
            archive.wf(),
            first_fault_upto(working_dir@, rlibs@, contents@, k as int).is_none(),
            member_views(archive.members@) == gathered_members_upto(
                working_dir@,
                rlibs@,
                contents@,
                k as int,
            ),
            texts(archive.kept_rlibs@) == gathered_kept_upto(
                working_dir@,
                rlibs@,
                contents@,
                k as int,
            ),
    {
        assert(contents@[k as int] == item);
        let rlib = rlibs[k].as_str();
        if !starts_with_dir(rlib, working_dir) {
            archive.keep_for_linker(rlib);
        } else {
            match item {
                Some(bytes) => {
                    match archive.add_rlib(rlib, bytes) {
                        Ok(()) => {},
                        Err(e) => {
                            proof {
                                lemma_first_fault_stays(
                                    working_dir@,
                                    rlibs@,
                                    contents@,
                                    k + 1,
                                    rlibs@.len() as int,
                                );
                            }
                            return Err(e);
                        },
                    }
                },
                None => {},
            }
        }
        assert(k < rlibs.len());
        k += 1;
    }
    Ok(archive)
}

/// A fault among the first `upto` rlibs is the fault among more of them.
proof fn lemma_first_fault_stays(
    working_dir: Seq<char>,
    rlibs: Seq<String>,
    contents: Seq<Option<Vec<u8>>>,
    upto: int,
    more: int,
)
    requires
        0 <= upto <= more,
        first_fault_upto(working_dir, rlibs, contents, upto).is_some(),
    ensures
        first_fault_upto(working_dir, rlibs, contents, more) == first_fault_upto(
            working_dir,
            rlibs,
            contents,
            upto,
        ),
    decreases more - upto,
{
    if upto < more {
        lemma_first_fault_stays(working_dir, rlibs, contents, upto, more - 1);
    }
}

/// What the fat link needs to know of the archive.
#[derive(Debug)]
pub struct LinkerSide {
    /// Whether the archive holds anything for the linker to load.
    pub has_contents: bool,
    /// The rlibs that stay with the linker, without immediate repeats.
    pub kept_rlibs: Vec<String>,
}

/// What the fat link needs to know of an archive that was made just now.
pub fn made_archive(archive: &FatArchive) -> (out: LinkerSide)
    requires
        archive.wf(),
    ensures
        out.has_contents == (archive.members@.len() > 0),
        texts(out.kept_rlibs@) == deduped(texts(archive.kept_rlibs@)),
{
    LinkerSide { has_contents: archive.has_contents, kept_rlibs: archive.kept_for_linker() }
}

/// What the fat link needs to know of an archive that is reused: it has
/// contents, and the rlibs that stay with the linker are the lines of its
/// list.
pub fn cached_archive(list: &str) -> (out: LinkerSide)
    ensures
        out.has_contents,
        texts(out.kept_rlibs@) == deduped(lines_of(list@)),
{
    let kept = lines(list);
    LinkerSide { has_contents: true, kept_rlibs: dedup(&kept) }
}

/// The archive is pure: each of its members has a name that ends in
/// `.rcgu.o` or `.obj`, a stated size that is not zero, and data of that
/// size.
pub proof fn lemma_archive_pure(archive: FatArchive, i: int)
    requires
        archive.wf(),
        0 <= i < archive.members@.len(),
    ensures
        ends_with_text(archive.members@[i].identifier@, ".rcgu.o"@) || ends_with_text(
            archive.members@[i].identifier@,
            ".obj"@,
        ),
        archive.members@[i].size != 0,
        archive.members@[i].data@.len() == archive.members@[i].size,
{
}

/// The text of the list of rlibs kept for the linker: one path per line.
pub fn rlibs_list_text(kept: &Vec<String>) -> (out: String)
    ensures
        out@ == joined_with(texts(kept@), "\n"@),
{
    join_with(kept, "\n")
}

} // verus!
