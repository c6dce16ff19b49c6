//! Decoding of compiled shader artifacts: SPIR-V words from the bytes on disk.
use vstd::prelude::*;

verus! {

/// Why an artifact's bytes are not a SPIR-V module.
#[derive(PartialEq, Eq, Structural, Clone, Copy, Debug)]
pub enum SpirvError {
    /// The artifact is empty.
    Empty,
    /// The length is not a whole number of 32-bit words.
    NotWordAligned,
    /// The first word is not the SPIR-V magic number in either byte order.
    BadMagic,
}

/// Word `i` of the bytes read least significant byte first.
pub open spec fn le_word(data: Seq<u8>, i: int) -> u32 {
    (data[4 * i] as int + data[4 * i + 1] as int * 0x100 + data[4 * i + 2] as int * 0x1_0000
        + data[4 * i + 3] as int * 0x100_0000) as u32
}

/// Word `i` of the bytes read most significant byte first.
pub open spec fn be_word(data: Seq<u8>, i: int) -> u32 {
    (data[4 * i + 3] as int + data[4 * i + 2] as int * 0x100 + data[4 * i + 1] as int * 0x1_0000
        + data[4 * i] as int * 0x100_0000) as u32
}

/// The bytes start with the SPIR-V magic number 0x07230203, least significant byte first.
pub open spec fn starts_with_le_magic(data: Seq<u8>) -> bool {
    data.len() >= 4 && data[0] == 0x03 && data[1] == 0x02 && data[2] == 0x23 && data[3] == 0x07
}

/// The bytes start with the SPIR-V magic number 0x07230203, most significant byte first.
pub open spec fn starts_with_be_magic(data: Seq<u8>) -> bool {
    data.len() >= 4 && data[0] == 0x07 && data[1] == 0x23 && data[2] == 0x02 && data[3] == 0x03
}

/// The words of a SPIR-V module, read in the byte order of its magic number.
pub open spec fn spirv_word_seq(data: Seq<u8>) -> Seq<u32> {
    Seq::new(
        data.len() / 4,
        |i: int|
            if starts_with_le_magic(data) {
                le_word(data, i)
            } else {
                be_word(data, i)
            },
    )
}

/// What the bytes of an artifact decode to.
pub open spec fn spirv_decoding(data: Seq<u8>) -> Result<Seq<u32>, SpirvError> {
    if data.len() == 0 {
        Err(SpirvError::Empty)
    } else if data.len() % 4 != 0 {
        Err(SpirvError::NotWordAligned)
    } else if !starts_with_le_magic(data) && !starts_with_be_magic(data) {
        Err(SpirvError::BadMagic)
    } else {
        Ok(spirv_word_seq(data))
    }
}

/// Relies on `wgpu::util::make_spirv_raw`: it reads the bytes as native-endian words and,
/// when the first word is the byte-swapped magic number, swaps every word; so the words
/// come out in the byte order of the magic number. It panics on an empty input, on a
/// length that is not a multiple of four and on a missing magic number, which
/// `requires` leaves out.
#[verifier::external_body]
fn make_spirv_words(data: &[u8]) -> (r: Vec<u32>)
    requires
        data@.len() > 0,
        data@.len() % 4 == 0,
        starts_with_le_magic(data@) || starts_with_be_magic(data@),
    ensures
        r@ == spirv_word_seq(data@),
{
    wgpu::util::make_spirv_raw(data).into_owned()
}

/// Decodes a compiled shader artifact into SPIR-V words, or says why it is not one.
pub fn spirv_words(data: &[u8]) -> (r: Result<Vec<u32>, SpirvError>)
    ensures
        match (r, spirv_decoding(data@)) {
            (Ok(w), Ok(v)) => w@ == v,
            (Err(e), Err(f)) => e == f,
            _ => false,
        },
{
    let n = data.len();
    if n == 0 {
        return Err(SpirvError::Empty);
    }
    if n % 4 != 0 {
        return Err(SpirvError::NotWordAligned);
    }
    let le = data[0] == 0x03 && data[1] == 0x02 && data[2] == 0x23 && data[3] == 0x07;
    let be = data[0] == 0x07 && data[1] == 0x23 && data[2] == 0x02 && data[3] == 0x03;
    if !le && !be {
        return Err(SpirvError::BadMagic);
    }
    Ok(make_spirv_words(data))
}

} // verus!
