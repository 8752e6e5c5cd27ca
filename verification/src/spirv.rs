//! SPIR-V words from shader bytes: the structural checks a module must
//! pass before its words are handed to the driver.
use vstd::prelude::*;

use crate::error::PipelineError;

verus! {

/// The first word of every SPIR-V module.
pub const SPIRV_MAGIC: u32 = 0x0723_0203;

/// The magic number as it reads from a module of the other byte order.
pub const SPIRV_MAGIC_SWAPPED: u32 = 0x0302_2307;

/// Word `i` of `bytes`, read least-significant byte first.
pub open spec fn le_word(bytes: Seq<u8>, i: int) -> int {
    bytes[4 * i] + 256 * bytes[4 * i + 1] + 65536 * bytes[4 * i + 2] + 16777216 * bytes[4 * i + 3]
}

/// Word `i` of `bytes`, read most-significant byte first: the
/// little-endian word with its bytes swapped.
pub open spec fn be_word(bytes: Seq<u8>, i: int) -> int {
    bytes[4 * i + 3] + 256 * bytes[4 * i + 2] + 65536 * bytes[4 * i + 1] + 16777216 * bytes[4 * i]
}

/// The words of a SPIR-V module, if `bytes` is one: a whole number of
/// words, at least one, whose first word is the magic number. A module
/// whose first word reads as the byte-swapped magic number is of the
/// other byte order, and every word of it is swapped.
pub open spec fn spirv_words(bytes: Seq<u8>) -> Option<Seq<u32>> {
    let n = bytes.len() / 4;
    if bytes.len() % 4 != 0 || n == 0 {
        None
    } else if le_word(bytes, 0) == SPIRV_MAGIC {
        Some(Seq::new(n, |i: int| le_word(bytes, i) as u32))
    } else if be_word(bytes, 0) == SPIRV_MAGIC {
        Some(Seq::new(n, |i: int| be_word(bytes, i) as u32))
    } else {
        None
    }
}

/// Word `i` of `bytes` in the order `swapped` names.
fn word_at(bytes: &[u8], i: usize, swapped: bool) -> (w: u32)
    requires
        4 * i + 3 < bytes.len(),
    ensures
        w as int == (if swapped { be_word(bytes@, i as int) } else { le_word(bytes@, i as int) }),
{
    let b0 = bytes[4 * i] as u32;
    let b1 = bytes[4 * i + 1] as u32;
    let b2 = bytes[4 * i + 2] as u32;
    let b3 = bytes[4 * i + 3] as u32;
    if swapped {
        b3 + 256 * b2 + 65536 * b1 + 16777216 * b0
    } else {
        b0 + 256 * b1 + 65536 * b2 + 16777216 * b3
    }
}

/// The words of a shader stage's SPIR-V bytes, or
/// [`PipelineError::InvalidSpirv`] naming `stage` when the bytes are not
/// a whole number of words, hold no word, or do not open with the magic
/// number in either byte order.
pub fn words_from_bytes(stage: &'static str, bytes: &[u8]) -> (r: Result<Vec<u32>, PipelineError>)
    ensures
        match spirv_words(bytes@) {
            Some(w) => r matches Ok(v) && v@ == w,
            None => r == Err::<Vec<u32>, PipelineError>(PipelineError::InvalidSpirv { stage }),
        },
{
    let len = bytes.len();
    if len % 4 != 0 || len / 4 == 0 {
        return Err(PipelineError::InvalidSpirv { stage });
    }
    let n = len / 4;
    let first = word_at(bytes, 0, false);
    let swapped = if first == SPIRV_MAGIC {
        false
    } else if word_at(bytes, 0, true) == SPIRV_MAGIC {
        true
    } else {
        return Err(PipelineError::InvalidSpirv { stage });
    };
    let ghost want = spirv_words(bytes@).unwrap();
    proof {
        assert(want =~= Seq::new(
            n as nat,
            |k: int|
                (if swapped {
                    be_word(bytes@, k)
                } else {
                    le_word(bytes@, k)
                }) as u32,
        ));
    }
    let mut words: Vec<u32> = Vec::new();
    let mut i: usize = 0;
    while i < n
        invariant
            n == bytes@.len() / 4,
            i <= n,
            want.len() == n,
            want == Seq::new(
                n as nat,
                |k: int|
                    (if swapped {
                        be_word(bytes@, k)
                    } else {
                        le_word(bytes@, k)
                    }) as u32,
            ),
            words@ == want.take(i as int),
        decreases n - i,
    {
        let w = word_at(bytes, i, swapped);
        words.push(w);
        i = i + 1;
        proof {
            assert(words@ =~= want.take(i as int));
        }
    }
    proof {
        assert(want.take(n as int) =~= want);
    }
    Ok(words)
}

} // verus!
