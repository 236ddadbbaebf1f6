//! The patch transport: the handshake that reports the ASLR reference, the
//! message that carries a patch, and the process filter on the receiving
//! side.

use crate::paths::{base_name, file_name};
use crate::symbols::JumpTable;
use crate::text::{chars_of, concat2};
use vstd::prelude::*;

verus! {

/// The value of `c` as a digit of the radix, where it is one.
pub open spec fn digit_of(c: char, radix: nat) -> Option<nat> {
    let v = c as u32;
    if 48 <= v <= 57 {
        Some((v - 48) as nat)
    } else if radix == 16 && 97 <= v <= 102 {
        Some((v - 87) as nat)
    } else if radix == 16 && 65 <= v <= 70 {
        Some((v - 55) as nat)
    } else {
        None
    }
}

/// `s` is not empty and holds digits of the radix only.
pub open spec fn all_digits(s: Seq<char>, radix: nat) -> bool {
    s.len() > 0 && forall|i: int| 0 <= i < s.len() ==> digit_of(s[i], radix).is_some()
}

/// The number that the digits of `s` write in the radix.
pub open spec fn value_of(s: Seq<char>, radix: nat) -> nat
    decreases s.len(),
{
    if s.len() == 0 {
        0
    } else {
        value_of(s.drop_last(), radix) * radix + digit_of(s.last(), radix).unwrap()
    }
}

/// The number that `s` writes in the radix, where `s` is made of digits
/// and the number fits in 64 bits.
pub open spec fn number(s: Seq<char>, radix: nat) -> Option<u64> {
    if all_digits(s, radix) && value_of(s, radix) <= u64::MAX {
        Some(value_of(s, radix) as u64)
    } else {
        None
    }
}

/// The 64-bit number that `s` writes: decimal digits, with or without a
/// `+` before them, or hexadecimal digits after `0x`.
pub open spec fn parse_u64(s: Seq<char>) -> Option<u64> {
    if s.len() >= 2 && s[0] == '0' && s[1] == 'x' {
        number(s.skip(2), 16)
    } else if s.len() >= 1 && s[0] == '+' {
        number(s.skip(1), 10)
    } else {
        number(s, 10)
    }
}

/// A number is at least what its first digits write.
proof fn lemma_value_grows(s: Seq<char>, radix: nat, k: int)
    requires
        radix == 10 || radix == 16,
        0 <= k <= s.len(),
        forall|i: int| 0 <= i < s.len() ==> digit_of(s[i], radix).is_some(),
    ensures
        value_of(s.take(k), radix) <= value_of(s, radix),
    decreases s.len() - k,
{
    if k < s.len() {
        lemma_value_grows(s, radix, k + 1);
        assert(s.take(k + 1).drop_last() =~= s.take(k));
        assert(s.take(k + 1).last() == s[k]);
        if radix == 10 {
            assert(value_of(s.take(k + 1), radix) == value_of(s.take(k), radix) * 10 + digit_of(
                s[k],
                radix,
            ).unwrap());
        } else {
            assert(value_of(s.take(k + 1), radix) == value_of(s.take(k), radix) * 16 + digit_of(
                s[k],
                radix,
            ).unwrap());
        }
    } else {
        assert(s.take(k) =~= s);
    }
}

/// The value of `c` as a digit of the radix.
fn digit(c: char, radix: u64) -> (r: Option<u64>)
    requires
        radix == 10 || radix == 16,
    ensures
        match r {
            Some(d) => digit_of(c, radix as nat) == Some(d as nat) && d < radix,
            None => digit_of(c, radix as nat).is_none(),
        },
{
    let v: u32 = c as u32;
    if 48 <= v && v <= 57 {
        Some((v - 48) as u64)
    } else if radix == 16 && 97 <= v && v <= 102 {
        Some((v - 87) as u64)
    } else if radix == 16 && 65 <= v && v <= 70 {
        Some((v - 55) as u64)
    } else {
        None
    }
}

/// Reads the characters of `v` from `from` up to `to` as a number.
fn read_number(v: &Vec<char>, from: usize, to: usize, radix: u64) -> (r: Option<u64>)
    requires
        from <= to <= v.len(),
        radix == 10 || radix == 16,
    ensures
        r == number(v@.subrange(from as int, to as int), radix as nat),
{
    let ghost s = v@.subrange(from as int, to as int);
    if from == to {
        return None;
    }
    let mut acc: u64 = 0;
    let mut i: usize = from;
    while i < to
        invariant
            from <= i <= to <= v.len(),
            radix == 10 || radix == 16,
            s == v@.subrange(from as int, to as int),
            acc as nat == value_of(s.take(i - from), radix as nat),
            forall|j: int| 0 <= j < i - from ==> digit_of(s[j], radix as nat).is_some(),
        decreases to - i,
    {
        let ghost k = i - from;
        assert(s[k] == v@[i as int]);
        assert(s.take(k + 1).drop_last() =~= s.take(k));
        assert(s.take(k + 1).last() == s[k]);
        let d = match digit(v[i], radix) {
            Some(d) => d,
            None => {
                return None;
            },
        };
        let next = match acc.checked_mul(radix) {
            Some(m) => m.checked_add(d),
            None => None,
        };
        match next {
            Some(n) => {
                acc = n;
            },
            None => {
                proof {
                    assert(value_of(s.take(k + 1), radix as nat) > u64::MAX);
                    if all_digits(s, radix as nat) {
                        lemma_value_grows(s, radix as nat, k + 1);
                    }
                }
                return None;
            },
        }
        i += 1;
    }
    assert(s.take(to - from) =~= s);
    Some(acc)
}

/// Reads the characters of `v` from `from` up to `to` as a 64-bit number.
fn read_u64(v: &Vec<char>, from: usize, to: usize) -> (r: Option<u64>)
    requires
        from <= to <= v.len(),
    ensures
        r == parse_u64(v@.subrange(from as int, to as int)),
{
    let ghost s = v@.subrange(from as int, to as int);
    if to - from >= 2 && v[from] == '0' && v[from + 1] == 'x' {
        assert(s[0] == v@[from as int] && s[1] == v@[from + 1]);
        assert(s.skip(2) =~= v@.subrange(from + 2, to as int));
        read_number(v, from + 2, to, 16)
    } else if to - from >= 1 && v[from] == '+' {
        assert(s[0] == v@[from as int]);
        assert(s.skip(1) =~= v@.subrange(from + 1, to as int));
        read_number(v, from + 1, to, 10)
    } else {
        proof {
            if s.len() >= 1 {
                assert(s[0] == v@[from as int]);
            }
            if s.len() >= 2 {
                assert(s[1] == v@[from + 1]);
            }
        }
        read_number(v, from, to, 10)
    }
}

/// The 64-bit number that `text` writes.
pub fn parse_number(text: &str) -> (r: Option<u64>)
    ensures
        r == parse_u64(text@),
{
    let v = chars_of(text);
    assert(v@.subrange(0, v@.len() as int) =~= v@);
    read_u64(&v, 0, v.len())
}

/// What one pair of the query reports: the number after `aslr_reference=`
/// where the pair begins so, which is `None` where no number follows;
/// nothing where the pair is another.
pub open spec fn reported_by(pair: Seq<char>) -> Option<Option<u64>> {
    if "aslr_reference="@.is_prefix_of(pair) {
        Some(parse_u64(pair.skip("aslr_reference="@.len() as int)))
    } else {
        None
    }
}

/// What the query reports from position `pos` on, where the pair that
/// `pos` lies in began at `start`: the report of the first pair that begins
/// with `aslr_reference=`. Pairs are separated by `&`.
pub open spec fn reported_from(query: Seq<char>, start: int, pos: int) -> Option<u64>
    decreases query.len() - pos,
{
    if pos >= query.len() {
        match reported_by(query.subrange(start, query.len() as int)) {
            Some(r) => r,
            None => None,
        }
    } else if query[pos] == '&' {
        match reported_by(query.subrange(start, pos)) {
            Some(r) => r,
            None => reported_from(query, pos + 1, pos + 1),
        }
    } else {
        reported_from(query, start, pos + 1)
    }
}

/// The ASLR reference that the query of a handshake reports.
pub open spec fn reported(query: Seq<char>) -> Option<u64> {
    reported_from(query, 0, 0)
}

/// What the pair of `v` from `from` up to `to` reports.
fn read_pair(v: &Vec<char>, key: &Vec<char>, from: usize, to: usize) -> (r: Option<Option<u64>>)
    requires
        from <= to <= v.len(),
        key@ == "aslr_reference="@,
    ensures
        r == reported_by(v@.subrange(from as int, to as int)),
{
    let ghost pair = v@.subrange(from as int, to as int);
    if key.len() > to - from {
        return None;
    }
    let mut i: usize = 0;
    while i < key.len()
        invariant
            from <= to <= v.len(),
            key.len() <= to - from,
            i <= key.len(),
            pair == v@.subrange(from as int, to as int),
            key@ == "aslr_reference="@,
            forall|j: int| 0 <= j < i ==> pair[j] == key@[j],
        decreases key.len() - i,
    {
        assert(pair[i as int] == v@[from + i]);
        if v[from + i] != key[i] {
            assert(pair.subrange(0, key@.len() as int)[i as int] == pair[i as int]);
            return None;
        }
        i += 1;
    }
    assert(pair.subrange(0, key@.len() as int) =~= key@);
    assert(pair.skip(key@.len() as int) =~= v@.subrange(from + key.len(), to as int));
    Some(read_u64(v, from + key.len(), to))
}

/// The ASLR reference that the query of a handshake reports: the number of
/// the first pair that begins with `aslr_reference=`.
pub fn aslr_from_query(query: &str) -> (r: Option<u64>)
    ensures
        r == reported(query@),
{
    let v = chars_of(query);
    let key = chars_of("aslr_reference=");
    let mut start: usize = 0;
    let mut pos: usize = 0;
    while pos < v.len()
        invariant
            start <= pos <= v.len(),
            v@ == query@,
            key@ == "aslr_reference="@,
            reported(query@) == reported_from(query@, start as int, pos as int),
        decreases v.len() - pos,
    {
        if v[pos] == '&' {
            match read_pair(&v, &key, start, pos) {
                Some(r) => {
                    return r;
                },
                None => {
                    start = pos + 1;
                },
            }
        }
        pos += 1;
    }
    match read_pair(&v, &key, start, v.len()) {
        Some(r) => r,
        None => None,
    }
}

/// The reference after a handshake: what the client reported where that
/// is a number other than zero, and the reference as it was otherwise.
pub fn updated_reference(current: u64, reported: Option<u64>) -> (r: u64)
    ensures
        r == match reported {
            Some(v) => if v != 0 {
                v
            } else {
                current
            },
            None => current,
        },
{
    match reported {
        Some(v) => if v != 0 {
            v
        } else {
            current
        },
        None => current,
    }
}

/// Where a WebAssembly client loads the patch from: its file name below
/// `/pkg/`.
pub fn site_lib(lib: &str) -> (out: String)
    ensures
        out@ == "/pkg/"@ + base_name(lib@),
{
    let name = file_name(lib);
    concat2("/pkg/", name.as_str())
}

/// One hot reload: a jump table for the process it was built for.
#[derive(Debug)]
pub struct HotReload {
    pub jump_table: JumpTable,
    /// The process that the patch was built against.
    pub for_pid: Option<u32>,
    pub ms_elapsed: u64,
}

/// The message that carries `jump_table` to the process `pid`. For
/// WebAssembly the table's `lib` becomes the place below `/pkg/`.
pub fn hot_reload(jump_table: JumpTable, pid: Option<u32>, wasm: bool) -> (out: HotReload)
    ensures
        out.for_pid == pid,
        out.ms_elapsed == 0,
        out.jump_table.map == jump_table.map,
        out.jump_table.aslr_reference == jump_table.aslr_reference,
        out.jump_table.lib@ == if wasm {
            "/pkg/"@ + base_name(jump_table.lib@)
        } else {
            jump_table.lib@
        },
{
    let lib = if wasm {
        site_lib(jump_table.lib.as_str())
    } else {
        jump_table.lib
    };
    HotReload {
        jump_table: JumpTable { lib, map: jump_table.map, aslr_reference: jump_table.aslr_reference },
        for_pid: pid,
        ms_elapsed: 0,
    }
}

/// Whether a process applies a hot reload: only the process that the
/// message names does.
pub fn applies_to(for_pid: Option<u32>, own_pid: u32) -> (r: bool)
    ensures
        r == (for_pid == Some(own_pid)),
        for_pid.is_some() && for_pid.unwrap() != own_pid ==> !r,
{
    match for_pid {
        Some(p) => p == own_pid,
        None => false,
    }
}

} // verus!
