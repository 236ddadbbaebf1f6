//! A scan of an archive's headers that is made before the archive is read.
//!
//! The reader of archives looks long names up in a table by an index that it
//! takes from the member's header. The scan walks the headers as the reader
//! does and admits an archive only where every such index lies within the
//! table, every member lies within the archive, and every number is written
//! in plain digits.

use crate::text::chars_of;
use vstd::prelude::*;

verus! {

/// The bytes from `from` on are the characters of `text`.
pub open spec fn bytes_are(bytes: Seq<u8>, from: int, text: Seq<char>) -> bool {
    &&& 0 <= from
    &&& from + text.len() <= bytes.len()
    &&& forall|i: int| 0 <= i < text.len() ==> bytes[from + i] as u32 == text[i] as u32
}

/// The bytes from `from` up to `to` are spaces.
pub open spec fn all_spaces(bytes: Seq<u8>, from: int, to: int) -> bool {
    forall|i: int| from <= i < to ==> bytes[i] == 32
}

/// `b` is a decimal digit.
pub open spec fn is_digit(b: u8) -> bool {
    48 <= b <= 57
}

/// How many of the bytes from `from` up to `to` are digits without a break.
pub open spec fn leading_digits(bytes: Seq<u8>, from: int, to: int) -> int
    decreases to - from,
{
    if from >= to || !is_digit(bytes[from]) {
        0
    } else {
        1 + leading_digits(bytes, from + 1, to)
    }
}

/// The number that the `n` digits from `from` on write.
pub open spec fn digits_value(bytes: Seq<u8>, from: int, n: int) -> nat
    decreases n,
{
    if n <= 0 {
        0
    } else {
        digits_value(bytes, from, n - 1) * 10 + (bytes[from + n - 1] - 48) as nat
    }
}

/// The number that the field of `width` bytes at `from` holds: one digit or
/// more, then spaces only, and a value that fits in 64 bits.
pub open spec fn field_number(bytes: Seq<u8>, from: int, width: int) -> Option<u64> {
    let n = leading_digits(bytes, from, from + width);
    if n >= 1 && all_spaces(bytes, from + n, from + width) && digits_value(bytes, from, n)
        <= u64::MAX {
        Some(digits_value(bytes, from, n) as u64)
    } else {
        None
    }
}

/// The name field of the header at `pos` holds `text` and then spaces only.
pub open spec fn name_is(bytes: Seq<u8>, pos: int, text: Seq<char>) -> bool {
    bytes_are(bytes, pos, text) && all_spaces(bytes, pos + text.len(), pos + 16)
}

/// The name field of the header at `pos` can be taken as it is: a name that
/// begins with `/` is the symbol table `/`, the table of long names `//`,
/// or an index into that table that lies within its `table_len` bytes; a
/// name that begins with `#1/` gives an even length that lies within the
/// member's `size`.
pub open spec fn name_ok(bytes: Seq<u8>, pos: int, table_len: u64, size: u64) -> bool {
    if bytes[pos] == 47 {
        ||| name_is(bytes, pos, "/"@)
        ||| name_is(bytes, pos, "//"@)
        ||| match field_number(bytes, pos + 1, 15) {
            Some(index) => index <= table_len,
            None => false,
        }
    } else if bytes_are(bytes, pos, "#1/"@) {
        match field_number(bytes, pos + 3, 13) {
            Some(length) => length % 2 == 0 && length <= size,
            None => false,
        }
    } else {
        true
    }
}

/// Where the header after the member at `pos` begins: behind the member's
/// `size` bytes, and behind one more byte where `size` is odd and the
/// archive goes on.
pub open spec fn next_header(bytes: Seq<u8>, pos: int, size: u64) -> int {
    let end = pos + 60 + size;
    if size % 2 == 1 && end < bytes.len() {
        end + 1
    } else {
        end
    }
}

/// The headers from `pos` on can be read, where the table of long names
/// holds `table_len` bytes. Each header has 60 bytes with the member's size
/// at byte 48, the member lies within the archive, and a line feed fills
/// up a member of odd size.
pub open spec fn headers_ok(bytes: Seq<u8>, pos: int, table_len: u64) -> bool
    decreases bytes.len() - pos,
{
    if pos >= bytes.len() {
        true
    } else if pos < 0 || pos + 60 > bytes.len() {
        false
    } else {
        match field_number(bytes, pos + 48, 10) {
            None => false,
            Some(size) => {
                let end = pos + 60 + size;
                &&& end <= bytes.len()
                &&& name_ok(bytes, pos, table_len, size)
                &&& (size % 2 == 1 && end < bytes.len() ==> bytes[end] == 10)
                &&& headers_ok(
                    bytes,
                    next_header(bytes, pos, size),
                    if name_is(bytes, pos, "//"@) {
                        size
                    } else {
                        table_len
                    },
                )
            },
        }
    }
}

/// The archive can be handed to the reader: it does not begin as an archive
/// does, so that the reader yields nothing, or all its headers can be read.
pub open spec fn readable(bytes: Seq<u8>) -> bool {
    bytes_are(bytes, 0, "!<arch>\n"@) ==> headers_ok(bytes, 8, 0)
}

/// Whether the bytes from `from` on are the characters of `text`.
fn bytes_match(bytes: &Vec<u8>, from: usize, text: &str) -> (r: bool)
    ensures
        r == bytes_are(bytes@, from as int, text@),
{
    let pat = chars_of(text);
    if from > bytes.len() || pat.len() > bytes.len() - from {
        return false;
    }
    let mut i: usize = 0;
    while i < pat.len()
        invariant
            pat@ == text@,
            from + pat.len() <= bytes.len(),
            i <= pat.len(),
            forall|j: int| 0 <= j < i ==> bytes@[from + j] as u32 == pat@[j] as u32,
        decreases pat.len() - i,
    {
        if bytes[from + i] as u32 != pat[i] as u32 {
            return false;
        }
        i += 1;
    }
    true
}

/// Whether the bytes from `from` up to `to` are spaces.
fn spaces(bytes: &Vec<u8>, from: usize, to: usize) -> (r: bool)
    requires
        to <= bytes.len(),
    ensures
        r == all_spaces(bytes@, from as int, to as int),
{
    let mut i: usize = from;
    while i < to
        invariant
            from <= i,
            to <= bytes.len(),
            forall|j: int| from <= j < i ==> bytes@[j] == 32,
        decreases to - i,
    {
        if bytes[i] != 32 {
            return false;
        }
        i += 1;
    }
    true
}

/// A number is at least what its first digits write.
proof fn lemma_digits_grow(bytes: Seq<u8>, from: int, k: int, n: int)
    requires
        0 <= k <= n,
    ensures
        digits_value(bytes, from, k) <= digits_value(bytes, from, n),
    decreases n - k,
{
    if k < n {
        lemma_digits_grow(bytes, from, k, n - 1);
    }
}

/// The digits without a break from `from` on go on behind `k` digits.
proof fn lemma_leading_digits(bytes: Seq<u8>, from: int, to: int, k: int)
    requires
        0 <= k,
        from + k <= to,
        forall|j: int| from <= j < from + k ==> is_digit(bytes[j]),
    ensures
        leading_digits(bytes, from, to) == k + leading_digits(bytes, from + k, to),
    decreases k,
{
    if k > 0 {
        lemma_leading_digits(bytes, from + 1, to, k - 1);
    }
}

/// Reads the number that the field of `width` bytes at `from` holds.
fn read_field(bytes: &Vec<u8>, from: usize, width: usize) -> (r: Option<u64>)
    requires
        from + width <= bytes.len(),
    ensures
        r == field_number(bytes@, from as int, width as int),
{
    let to: usize = from + width;
    let mut acc: u64 = 0;
    let mut overflow = false;
    let mut i: usize = from;
    while i < to && bytes[i] >= 48 && bytes[i] <= 57
        invariant
            from <= i <= to,
            to <= bytes.len(),
            forall|j: int| from <= j < i ==> is_digit(bytes@[j]),
            !overflow ==> acc as nat == digits_value(bytes@, from as int, i - from),
            overflow ==> digits_value(bytes@, from as int, i - from) > u64::MAX,
        decreases to - i,
    {
        let d: u64 = (bytes[i] - 48) as u64;
        if !overflow {
            let next = match acc.checked_mul(10) {
                Some(m) => m.checked_add(d),
                None => None,
            };
            match next {
                Some(n) => {
                    acc = n;
                },
                None => {
                    overflow = true;
                },
            }
        } else {
            proof {
                lemma_digits_grow(bytes@, from as int, i - from, i - from + 1);
            }
        }
        i += 1;
    }
    proof {
        lemma_leading_digits(bytes@, from as int, to as int, i - from);
        assert(leading_digits(bytes@, i as int, to as int) == 0);
    }
    if i == from || overflow {
        return None;
    }
    if spaces(bytes, i, to) {
        Some(acc)
    } else {
        None
    }
}

/// Whether the name field of the header at `pos` holds `text` and then
/// spaces only.
fn name_matches(bytes: &Vec<u8>, pos: usize, text: &str) -> (r: bool)
    requires
        pos + 16 <= bytes.len(),
        text@.len() <= 16,
    ensures
        r == name_is(bytes@, pos as int, text@),
{
    if !bytes_match(bytes, pos, text) {
        return false;
    }
    let n = text.unicode_len();
    spaces(bytes, pos + n, pos + 16)
}

/// Whether the name field of the header at `pos` can be taken as it is.
fn check_name(bytes: &Vec<u8>, pos: usize, table_len: u64, size: u64) -> (r: bool)
    requires
        pos + 60 <= bytes.len(),
    ensures
        r == name_ok(bytes@, pos as int, table_len, size),
{
    proof {
        reveal_strlit("/");
        reveal_strlit("//");
    }
    if bytes[pos] == 47 {
        if name_matches(bytes, pos, "/") || name_matches(bytes, pos, "//") {
            return true;
        }
        match read_field(bytes, pos + 1, 15) {
            Some(index) => index <= table_len,
            None => false,
        }
    } else if bytes_match(bytes, pos, "#1/") {
        match read_field(bytes, pos + 3, 13) {
            Some(length) => length % 2 == 0 && length <= size,
            None => false,
        }
    } else {
        true
    }
}

/// Scans the headers of an archive and says whether it can be handed to
/// the reader.
pub fn is_readable(bytes: &Vec<u8>) -> (r: bool)
    ensures
        r == readable(bytes@),
{
    if !bytes_match(bytes, 0, "!<arch>\n") {
        return true;
    }
    let len: usize = bytes.len();
    let mut pos: usize = 8;
    let mut table_len: u64 = 0;
    while pos < len
        invariant
            len == bytes.len(),
            8 <= pos,
            readable(bytes@) == headers_ok(bytes@, pos as int, table_len),
        decreases len - pos,
    {
        if len - pos < 60 {
            return false;
        }
        let size = match read_field(bytes, pos + 48, 10) {
            Some(size) => size,
            None => {
                return false;
            },
        };
        if size > (len - pos - 60) as u64 {
            return false;
        }
        if !check_name(bytes, pos, table_len, size) {
            return false;
        }
        let end: usize = pos + 60 + size as usize;
        if size % 2 == 1 && end < len && bytes[end] != 10 {
            return false;
        }
        proof {
            reveal_strlit("//");
        }
        if name_matches(bytes, pos, "//") {
            table_len = size;
        }
        pos = if size % 2 == 1 && end < len {
            end + 1
        } else {
            end
        };
    }
    true
}

} // verus!
