//! Program images: a file of big-endian 32-bit words.

use vstd::prelude::*;
use byteorder::ByteOrder;

verus! {

/// Why a byte sequence is no program image.
#[derive(Clone, Copy, Debug, PartialEq, Eq)]
pub enum ImageError {
    /// The number of bytes is not a multiple of four.
    PartialWord,
}

/// The `i`-th big-endian word of `bytes`: the first of its four bytes is
/// the most significant.
pub open spec fn word_at(bytes: Seq<u8>, i: int) -> u32 {
    (bytes[4 * i] * 0x100_0000 + bytes[4 * i + 1] * 0x1_0000 + bytes[4 * i + 2] * 0x100 + bytes[4
        * i + 3]) as u32
}

/// The words of an image, in file order.
pub open spec fn words_of(bytes: Seq<u8>) -> Seq<u32> {
    Seq::new((bytes.len() / 4) as nat, |i: int| word_at(bytes, i))
}

/// Calls `byteorder::ByteOrder::read_u32_into` of `BigEndian`, which fills
/// `words` with the big-endian words of `bytes` and panics unless `bytes`
/// is exactly four times as long as `words`.
#[verifier::external_body]
fn read_words(bytes: &[u8], words: &mut Vec<u32>)
    requires
        bytes@.len() == 4 * old(words)@.len(),
    ensures
        final(words)@.len() == old(words)@.len(),
        forall|i: int| 0 <= i < final(words)@.len() ==> final(words)@[i] == word_at(bytes@, i),
{
    byteorder::BigEndian::read_u32_into(bytes, words.as_mut_slice());
}

/// Reads a program image: every four bytes make one word, most
/// significant byte first. An image that ends within a word is refused.
pub fn parse_program(bytes: &[u8]) -> (r: Result<Vec<u32>, ImageError>)
    ensures
        r is Ok <==> bytes@.len() % 4 == 0,
        r matches Ok(words) ==> words@ == words_of(bytes@),
        r matches Err(e) ==> e == ImageError::PartialWord,
{
    if bytes.len() % 4 != 0 {
        return Err(ImageError::PartialWord);
    }
    let mut words: Vec<u32> = vec![0u32; bytes.len() / 4];
    read_words(bytes, &mut words);
    assert(words@ =~= words_of(bytes@));
    Ok(words)
}

} // verus!
