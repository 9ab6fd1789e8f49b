//! Values in the layout that the GPU reads.

use vstd::prelude::*;

verus! {

/// Bytes that one instance transform takes in an instance buffer.
pub const MATRIX_BYTES: u64 = 64;

/// A 4x4 transform as the sixteen 32-bit words of its column-major
/// single-precision layout. The renderer stores and copies transforms; it
/// never computes with them.
#[derive(Clone, Copy, Debug)]
pub struct GpuMatrix4 {
    pub matrix: [u32; 16],
}

impl GpuMatrix4 {
    pub fn new(matrix: [u32; 16]) -> (result: Self)
        ensures
            result.matrix == matrix,
    {
        GpuMatrix4 { matrix }
    }

    /// Every word is zero, the bit pattern of `0.0`.
    pub open spec fn is_zero(self) -> bool {
        forall|i: int| 0 <= i < 16 ==> self.matrix@[i] == 0
    }

    /// The zero matrix.
    pub fn empty() -> (result: Self)
        ensures
            result.is_zero(),
    {
        GpuMatrix4 { matrix: [0u32; 16] }
    }
}

/// The words of the given transforms, one transform after the other.
pub open spec fn flattened(instances: Seq<GpuMatrix4>) -> Seq<u32> {
    Seq::new(16 * instances.len(), |i: int| instances[i / 16].matrix@[i % 16])
}

/// Byte `at` of `word`, counted from the least significant one.
pub open spec fn low_byte(word: u32, at: int) -> u8 {
    if at == 0 {
        #[verifier::truncate]
        ((word & 0xff) as u8)
    } else if at == 1 {
        #[verifier::truncate]
        (((word >> 8) & 0xff) as u8)
    } else if at == 2 {
        #[verifier::truncate]
        (((word >> 16) & 0xff) as u8)
    } else {
        #[verifier::truncate]
        (((word >> 24) & 0xff) as u8)
    }
}

/// Byte `at` of `word` in memory, on a machine of the given byte order.
pub open spec fn word_byte(word: u32, at: int, little_endian: bool) -> u8 {
    if little_endian {
        low_byte(word, at)
    } else {
        low_byte(word, 3 - at)
    }
}

/// `bytes` is what `words` look like in memory on a machine of the given
/// byte order.
pub open spec fn is_image_in_order(bytes: Seq<u8>, words: Seq<u32>, little_endian: bool) -> bool {
    &&& bytes.len() == 4 * words.len()
    &&& forall|i: int|
        0 <= i < bytes.len() ==> #[trigger] bytes[i] == word_byte(
            words[i / 4],
            i % 4,
            little_endian,
        )
}

/// `bytes` is what `words` look like in memory, on a little-endian or on a
/// big-endian machine.
pub open spec fn is_memory_image(bytes: Seq<u8>, words: Seq<u32>) -> bool {
    is_image_in_order(bytes, words, true) || is_image_in_order(bytes, words, false)
}

/// `bytemuck::cast_slice` from 32-bit words to bytes, copied into a vector.
///
/// Not verified. The claim: the cast never fails for this pair of types,
/// and the bytes are the words as they lie in memory, four bytes for each
/// word, in the byte order of the machine.
#[verifier::external_body]
fn cast_words(words: &Vec<u32>) -> (bytes: Vec<u8>)
    ensures
        is_memory_image(bytes@, words@),
{
    bytemuck::cast_slice::<u32, u8>(words.as_slice()).to_vec()
}

/// The words of the given transforms, one transform after the other.
pub fn instance_words(instances: &Vec<GpuMatrix4>) -> (words: Vec<u32>)
    requires
        16 * instances@.len() <= usize::MAX,
    ensures
        words@ == flattened(instances@),
{
    let mut words: Vec<u32> = Vec::new();
    let mut i: usize = 0;
    while i < instances.len()
        invariant
            i <= instances@.len(),
            16 * instances@.len() <= usize::MAX,
            words@.len() == 16 * i,
            forall|k: int|
                0 <= k < words@.len() ==> #[trigger] words@[k] == instances@[k / 16].matrix@[k
                    % 16],
        decreases instances@.len() - i,
    {
        let matrix = &instances[i].matrix;
        let mut j: usize = 0;
        while j < 16
            invariant
                j <= 16,
                i < instances@.len(),
                16 * instances@.len() <= usize::MAX,
                *matrix == instances@[i as int].matrix,
                words@.len() == 16 * i + j,
                forall|k: int|
                    0 <= k < words@.len() ==> #[trigger] words@[k]
                        == instances@[k / 16].matrix@[k % 16],
            decreases 16 - j,
        {
            words.push(matrix[j]);
            j += 1;
        }
        i += 1;
    }
    assert(words@ =~= flattened(instances@));
    words
}

/// The given transforms as the bytes that are written to an instance
/// buffer: `MATRIX_BYTES` bytes for each, in the byte order of the machine.
pub fn instance_bytes(instances: &Vec<GpuMatrix4>) -> (bytes: Vec<u8>)
    requires
        16 * instances@.len() <= usize::MAX,
    ensures
        bytes@.len() == MATRIX_BYTES * instances@.len(),
        is_memory_image(bytes@, flattened(instances@)),
{
    let words = instance_words(instances);
    cast_words(&words)
}

} // verus!
