//! The grade buffer's layout: a header, node records, curve payloads and matte
//! blocks.

use vstd::prelude::*;

use crate::matte::COLOR_NODE_LIMIT_PER_LAYER;

verus! {

/// The number of bytes of the header.
pub const GRADE_HEADER_BYTES: usize = 16;

/// The number of words of a node record.
pub const GRADE_NODE_WORDS: usize = 16;

/// The word of a node record that holds the offset of its matte block.
pub const GRADE_NODE_MATTE_OFFSET_WORD: usize = 15;

/// The number of words of a matte block.
pub const MATTE_BLOCK_WORDS: usize = 64;

/// The number of words of a curve payload: four curves of 49 words.
pub const GRADE_CURVE_PAYLOAD_WORDS: usize = 196;

/// The number of bytes of the greatest buffer.
pub const GRADE_BUFFER_WORST_CASE_BYTES: usize = 17_680;

/// Four bytes as a word, the least significant first.
pub open spec fn word_at(bytes: Seq<u8>, offset: int) -> int {
    bytes[offset] + bytes[offset + 1] * 0x100 + bytes[offset + 2] * 0x1_0000 + bytes[offset + 3]
        * 0x100_0000
}

fn read_word(bytes: &[u8], offset: usize) -> (word: u32)
    requires
        offset + 4 <= bytes.len(),
    ensures
        word == word_at(bytes@, offset as int),
{
    bytes[offset] as u32 + bytes[offset + 1] as u32 * 0x100 + bytes[offset + 2] as u32 * 0x1_0000
        + bytes[offset + 3] as u32 * 0x100_0000
}

/// A word of the header.
pub fn grade_header_word(bytes: &[u8], index: usize) -> (word: u32)
    requires
        index * 4 + 4 <= bytes.len(),
    ensures
        word == word_at(bytes@, index * 4),
{
    read_word(bytes, index * 4)
}

/// The bits of a word behind the header.
pub fn grade_word(bytes: &[u8], word: usize) -> (bits: u32)
    requires
        GRADE_HEADER_BYTES + word * 4 + 4 <= bytes.len(),
    ensures
        bits == word_at(bytes@, GRADE_HEADER_BYTES + word * 4),
{
    read_word(bytes, GRADE_HEADER_BYTES + word * 4)
}

/// The word at which the payload of a node begins, where every node carries a
/// curve and a matte.
pub open spec fn payload_offset(node: int) -> int {
    COLOR_NODE_LIMIT_PER_LAYER * GRADE_NODE_WORDS + node * (GRADE_CURVE_PAYLOAD_WORDS
        + MATTE_BLOCK_WORDS)
}

/// The word at which the matte block of a node begins.
pub open spec fn matte_offset(node: int) -> int {
    payload_offset(node) + GRADE_CURVE_PAYLOAD_WORDS
}

/// The payload and the matte block of a node in the greatest buffer.
pub fn node_regions(node: usize) -> (regions: (usize, usize))
    requires
        node < COLOR_NODE_LIMIT_PER_LAYER,
    ensures
        regions.0 == payload_offset(node as int),
        regions.1 == matte_offset(node as int),
{
    let payload: usize = 256 + node * 260;
    (payload, payload + GRADE_CURVE_PAYLOAD_WORDS)
}

/// The regions of the greatest buffer follow one another without overlap,
/// behind the node records, and end where the buffer ends.
pub proof fn lemma_buffer_regions_do_not_overlap(earlier: int, later: int)
    requires
        0 <= earlier < later < COLOR_NODE_LIMIT_PER_LAYER,
    ensures
        COLOR_NODE_LIMIT_PER_LAYER * GRADE_NODE_WORDS <= payload_offset(earlier),
        payload_offset(earlier) + GRADE_CURVE_PAYLOAD_WORDS <= matte_offset(earlier),
        matte_offset(earlier) + MATTE_BLOCK_WORDS <= payload_offset(later),
        GRADE_HEADER_BYTES + (matte_offset(COLOR_NODE_LIMIT_PER_LAYER - 1) + MATTE_BLOCK_WORDS) * 4
            == GRADE_BUFFER_WORST_CASE_BYTES,
        GRADE_BUFFER_WORST_CASE_BYTES == GRADE_HEADER_BYTES + COLOR_NODE_LIMIT_PER_LAYER
            * GRADE_NODE_WORDS * 4 + COLOR_NODE_LIMIT_PER_LAYER * GRADE_CURVE_PAYLOAD_WORDS * 4
            + COLOR_NODE_LIMIT_PER_LAYER * MATTE_BLOCK_WORDS * 4,
{
}

/// The bytes of a word, from the least significant on.
pub proof fn lemma_word_by_bytes(bytes: Seq<u8>, offset: int)
    ensures
        word_at(bytes, offset) % 0x100 == bytes[offset],
        word_at(bytes, offset) / 0x100 % 0x100 == bytes[offset + 1],
        word_at(bytes, offset) / 0x1_0000 % 0x100 == bytes[offset + 2],
        word_at(bytes, offset) / 0x100_0000 == bytes[offset + 3],
{
}

/// The words at which the payload and the matte block of each node begin.
pub proof fn lemma_regions_in_numbers(node: int)
    requires
        0 <= node < 16,
    ensures
        payload_offset(node) == 256 + 260 * node,
        matte_offset(node) == 452 + 260 * node,
        GRADE_BUFFER_WORST_CASE_BYTES == 17_680,
{
}

} // verus!
