use vstd::prelude::*;

verus! {

/// The word that four bytes make, the first byte being the lowest when
/// `little_endian` is set and the highest otherwise.
pub open spec fn word_of(bytes: Seq<u8>, at: int, little_endian: bool) -> int {
    if little_endian {
        bytes[at] + 0x100 * bytes[at + 1] + 0x1_0000 * bytes[at + 2] + 0x100_0000 * bytes[at + 3]
    } else {
        bytes[at + 3] + 0x100 * bytes[at + 2] + 0x1_0000 * bytes[at + 1] + 0x100_0000 * bytes[at]
    }
}

/// Packs the bytes of a shader binary into 32-bit words, four bytes to a
/// word in the given byte order. Bytes that do not make whole words are
/// refused.
pub fn words_of(bytes: &Vec<u8>, little_endian: bool) -> (words: Option<Vec<u32>>)
    ensures
        bytes@.len() % 4 != 0 <==> words is None,
        words matches Some(packed) ==> packed@.len() * 4 == bytes@.len() && forall|i: int|
            0 <= i < packed@.len() ==> #[trigger] packed@[i] == word_of(
                bytes@,
                4 * i,
                little_endian,
            ),
{
    if bytes.len() % 4 != 0 {
        return None;
    }
    let count = bytes.len() / 4;
    let mut packed: Vec<u32> = Vec::new();
    let mut i: usize = 0;
    while i < count
        invariant
            i <= count,
            count * 4 == bytes@.len(),
            bytes@.len() <= usize::MAX,
            packed@.len() == i,
            forall|h: int|
                0 <= h < i ==> #[trigger] packed@[h] == word_of(bytes@, 4 * h, little_endian),
        decreases count - i,
    {
        let at = 4 * i;
        let b0: u32 = bytes[at] as u32;
        let b1: u32 = bytes[at + 1] as u32;
        let b2: u32 = bytes[at + 2] as u32;
        let b3: u32 = bytes[at + 3] as u32;
        let word: u32 = if little_endian {
            b0 + 0x100 * b1 + 0x1_0000 * b2 + 0x100_0000 * b3
        } else {
            b3 + 0x100 * b2 + 0x1_0000 * b1 + 0x100_0000 * b0
        };
        packed.push(word);
        i += 1;
    }
    Some(packed)
}

} // verus!
