use vstd::prelude::*;

verus! {

/// The four bytes that open a file of voxel models: `VOX `.
pub const MAGIC: (u8, u8, u8, u8) = (0x56, 0x4F, 0x58, 0x20);

/// The name of the chunk with the extents of a model: `SIZE`.
pub const SIZE: (u8, u8, u8, u8) = (0x53, 0x49, 0x5A, 0x45);

/// The name of the chunk with the voxels of a model: `XYZI`.
pub const XYZI: (u8, u8, u8, u8) = (0x58, 0x59, 0x5A, 0x49);

/// The name of the chunk with the palette: `RGBA`.
pub const RGBA: (u8, u8, u8, u8) = (0x52, 0x47, 0x42, 0x41);

/// The name of the chunk with a material: `MATL`.
pub const MATL: (u8, u8, u8, u8) = (0x4D, 0x41, 0x54, 0x4C);

/// The name of the chunk that packs a model: `PACK`.
pub const PACK: (u8, u8, u8, u8) = (0x50, 0x41, 0x43, 0x4B);

/// The number of bytes before the first chunk: the magic word and the
/// version.
pub const PREAMBLE: usize = 8;

/// The number of bytes in the head of a chunk: its name, the length of its
/// content and the length of its children.
pub const HEAD: usize = 12;

/// The little-endian word that starts at `at`.
pub open spec fn word_at(bytes: Seq<u8>, at: int) -> int {
    bytes[at] + 0x100 * bytes[at + 1] + 0x1_0000 * bytes[at + 2] + 0x100_0000 * bytes[at + 3]
}

/// Whether the four bytes that start at `at` are those of `name`.
pub open spec fn named_at(bytes: Seq<u8>, at: int, name: (u8, u8, u8, u8)) -> bool {
    &&& bytes[at] == name.0
    &&& bytes[at + 1] == name.1
    &&& bytes[at + 2] == name.2
    &&& bytes[at + 3] == name.3
}

/// Whether the next `count` strings that start at `at` have their length
/// words inside `end`. A string is a length word followed by that many
/// bytes; reading stops, and is sound, at a string that reaches past `end`.
pub open spec fn strings_sound(bytes: Seq<u8>, at: int, end: int, count: nat) -> bool
    decreases count,
{
    count == 0 || (end - at >= 4 && (word_at(bytes, at) > end - at - 4 || strings_sound(
        bytes,
        at + 4 + word_at(bytes, at),
        end,
        (count - 1) as nat,
    )))
}

/// Whether the content of a chunk without children can be read. The chunk
/// starts at `head`, and its content is the `len` bytes from `at`.
///
/// - `SIZE` holds three words.
/// - `XYZI` holds a count and four bytes for each voxel counted.
/// - `RGBA` holds words only.
/// - `MATL` holds a word, a count, and two strings for each entry counted.
/// - `PACK` is not read.
/// - A chunk of any other name is skipped.
pub open spec fn content_sound(bytes: Seq<u8>, head: int, at: int, len: int) -> bool {
    if named_at(bytes, head, SIZE) {
        len >= 12
    } else if named_at(bytes, head, XYZI) {
        len >= 4 && 4 * word_at(bytes, at) <= len - 4
    } else if named_at(bytes, head, RGBA) {
        len % 4 == 0
    } else if named_at(bytes, head, MATL) {
        &&& len >= 8
        &&& 8 * word_at(bytes, at + 4) <= len - 8
        &&& strings_sound(bytes, at + 8, at + len, (2 * word_at(bytes, at + 4)) as nat)
    } else if named_at(bytes, head, PACK) {
        false
    } else {
        true
    }
}

/// Whether the chunks that lie one after the other from `at` to `end` can
/// be read. Fewer than four bytes at the end are left over. A chunk that
/// reaches past `end` ends the reading, and so nothing is asked of it.
/// Every other chunk has a whole head, no children, and a content that can
/// be read.
pub open spec fn children_sound(bytes: Seq<u8>, at: int, end: int) -> bool
    decreases end - at,
{
    let left = end - at;
    let content = word_at(bytes, at + 4);
    let children = word_at(bytes, at + 8);
    if left < 4 {
        true
    } else if left < HEAD {
        false
    } else if content > left - HEAD || children > left - HEAD - content {
        true
    } else {
        &&& children == 0
        &&& content_sound(bytes, at, at + HEAD, content)
        &&& children_sound(bytes, at + HEAD + content, end)
    }
}

/// Whether a file is framed so that all of it can be read: it opens with
/// the magic word, the version and the whole head of a first chunk. If
/// that chunk reaches past the end of the file, nothing more is asked. If
/// not, it is not a `PACK`, and either it has no children and its content
/// can be read, or its children can be read.
pub open spec fn frame_sound(bytes: Seq<u8>) -> bool {
    let left = bytes.len() - PREAMBLE - HEAD;
    let content = word_at(bytes, PREAMBLE + 4);
    let children = word_at(bytes, PREAMBLE + 8);
    &&& bytes.len() >= PREAMBLE + HEAD
    &&& named_at(bytes, 0, MAGIC)
    &&& (content > left || children > left - content || {
        &&& !named_at(bytes, PREAMBLE as int, PACK)
        &&& if children == 0 {
            content_sound(bytes, PREAMBLE as int, PREAMBLE + HEAD, content)
        } else {
            children_sound(
                bytes,
                PREAMBLE + HEAD + content,
                PREAMBLE + HEAD + content + children,
            )
        }
    })
}

/// The little-endian word that starts at `at`.
fn read_word(bytes: &[u8], at: usize) -> (word: u32)
    requires
        at + 4 <= bytes@.len(),
    ensures
        word == word_at(bytes@, at as int),
{
    let b0 = bytes[at] as u32;
    let b1 = bytes[at + 1] as u32;
    let b2 = bytes[at + 2] as u32;
    let b3 = bytes[at + 3] as u32;
    b0 + 0x100 * b1 + 0x1_0000 * b2 + 0x100_0000 * b3
}

/// Whether the four bytes that start at `at` are those of `name`.
fn is_named(bytes: &[u8], at: usize, name: (u8, u8, u8, u8)) -> (named: bool)
    requires
        at + 4 <= bytes@.len(),
    ensures
        named == named_at(bytes@, at as int, name),
{
    bytes[at] == name.0 && bytes[at + 1] == name.1 && bytes[at + 2] == name.2 && bytes[at + 3]
        == name.3
}

/// Whether the next `count` strings from `start` can be read.
fn strings_ok(bytes: &[u8], start: usize, end: usize, count: u64) -> (sound: bool)
    requires
        start <= end <= bytes@.len(),
    ensures
        sound == strings_sound(bytes@, start as int, end as int, count as nat),
{
    let mut at = start;
    let mut left_over = count;
    while left_over > 0
        invariant
            at <= end <= bytes@.len(),
            strings_sound(bytes@, start as int, end as int, count as nat) == strings_sound(
                bytes@,
                at as int,
                end as int,
                left_over as nat,
            ),
        decreases left_over,
    {
        let left = end - at;
        if left < 4 {
            return false;
        }
        let len = read_word(bytes, at) as usize;
        if len > left - 4 {
            return true;
        }
        at = at + 4 + len;
        left_over = left_over - 1;
    }
    true
}

/// Whether the content of a chunk without children can be read.
fn content_ok(bytes: &[u8], head: usize, at: usize, len: usize) -> (sound: bool)
    requires
        head + 4 <= bytes@.len(),
        at + len <= bytes@.len() <= usize::MAX,
    ensures
        sound == content_sound(bytes@, head as int, at as int, len as int),
{
    if is_named(bytes, head, SIZE) {
        len >= 12
    } else if is_named(bytes, head, XYZI) {
        len >= 4 && 4 * (read_word(bytes, at) as u64) <= (len - 4) as u64
    } else if is_named(bytes, head, RGBA) {
        len % 4 == 0
    } else if is_named(bytes, head, MATL) {
        if len < 8 {
            return false;
        }
        let entries = read_word(bytes, at + 4) as u64;
        if 8 * entries > (len - 8) as u64 {
            return false;
        }
        strings_ok(bytes, at + 8, at + len, 2 * entries)
    } else if is_named(bytes, head, PACK) {
        false
    } else {
        true
    }
}

/// Whether the chunks from `start` to `end` can be read.
fn children_ok(bytes: &[u8], start: usize, end: usize) -> (sound: bool)
    requires
        start <= end <= bytes@.len() <= usize::MAX,
    ensures
        sound == children_sound(bytes@, start as int, end as int),
{
    let mut at = start;
    loop
        invariant
            at <= end <= bytes@.len() <= usize::MAX,
            children_sound(bytes@, start as int, end as int) == children_sound(
                bytes@,
                at as int,
                end as int,
            ),
        decreases end - at,
    {
        let left = end - at;
        if left < 4 {
            return true;
        }
        if left < HEAD {
            return false;
        }
        let content = read_word(bytes, at + 4) as usize;
        let children = read_word(bytes, at + 8) as usize;
        if content > left - HEAD || children > left - HEAD - content {
            return true;
        }
        if children != 0 {
            return false;
        }
        if !content_ok(bytes, at, at + HEAD, content) {
            return false;
        }
        at = at + HEAD + content;
    }
}

/// Whether a file is framed so that all of it can be read.
pub fn frame_ok(bytes: &[u8]) -> (sound: bool)
    ensures
        sound == frame_sound(bytes@),
{
    if bytes.len() < PREAMBLE + HEAD {
        return false;
    }
    if !is_named(bytes, 0, MAGIC) {
        return false;
    }
    let left = bytes.len() - PREAMBLE - HEAD;
    let content = read_word(bytes, PREAMBLE + 4) as usize;
    let children = read_word(bytes, PREAMBLE + 8) as usize;
    if content > left || children > left - content {
        return true;
    }
    if is_named(bytes, PREAMBLE, PACK) {
        return false;
    }
    if children == 0 {
        content_ok(bytes, PREAMBLE, PREAMBLE + HEAD, content)
    } else {
        children_ok(bytes, PREAMBLE + HEAD + content, PREAMBLE + HEAD + content + children)
    }
}

} // verus!
