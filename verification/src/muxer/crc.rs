//! The checksum of an Ogg page: a 32-bit CRC with generator polynomial
//! `0x04c11db7`, no bit reflection, initial value zero and no final XOR.

use vstd::prelude::*;

verus! {

/// The generator polynomial, without its leading term.
pub const CRC_POLYNOMIAL: u32 = 0x04c1_1db7;

/// Shifts the register by one bit and subtracts the polynomial when a set bit
/// leaves at the top.
pub open spec fn shift_step(r: u32) -> u32 {
    if r & 0x8000_0000 != 0 {
        (r << 1) ^ CRC_POLYNOMIAL
    } else {
        r << 1
    }
}

/// `n` applications of [`shift_step`].
pub open spec fn shift_steps(r: u32, n: nat) -> u32
    decreases n,
{
    if n == 0 {
        r
    } else {
        shift_step(shift_steps(r, (n - 1) as nat))
    }
}

/// The entry of the byte-wise lookup table at `idx`: the low byte of `idx`,
/// placed at the top of the register and shifted out through eight steps.
pub open spec fn table_entry(idx: u32) -> u32 {
    shift_steps(idx << 24, 8)
}

/// The register after one more byte.
pub open spec fn crc_step(crc: u32, byte: u8) -> u32 {
    (crc << 8) ^ table_entry(((byte as u32) ^ (crc >> 24)) & 0xff)
}

/// The register after all of `bytes`, starting from `seed`.
pub open spec fn crc_update(seed: u32, bytes: Seq<u8>) -> u32
    decreases bytes.len(),
{
    if bytes.len() == 0 {
        seed
    } else {
        crc_step(crc_update(seed, bytes.drop_last()), bytes.last())
    }
}

/// The checksum of `bytes`.
pub open spec fn crc32(bytes: Seq<u8>) -> u32 {
    crc_update(0, bytes)
}

/// Computes one entry of the lookup table.
pub fn get_tbl_elem(idx: u32) -> (r: u32)
    ensures
        r == table_entry(idx),
{
    let mut r: u32 = idx << 24;
    let mut i: u32 = 0;
    while i < 8
        invariant
            i <= 8,
            r == shift_steps(idx << 24, i as nat),
        decreases 8 - i,
    {
        r = if r & 0x8000_0000 != 0 {
            (r << 1) ^ CRC_POLYNOMIAL
        } else {
            r << 1
        };
        i += 1;
    }
    r
}

/// Computes the whole lookup table.
pub fn lookup_array() -> (table: [u32; 256])
    ensures
        forall|i: int| 0 <= i < 256 ==> table[i] == table_entry(i as u32),
{
    let mut table: [u32; 256] = [0u32; 256];
    let mut i: usize = 0;
    while i < 256
        invariant
            i <= 256,
            forall|j: int| 0 <= j < i ==> table[j] == table_entry(j as u32),
        decreases 256 - i,
    {
        table[i] = get_tbl_elem(i as u32);
        i += 1;
    }
    table
}

/// The checksum of `array`.
pub fn vorbis_crc32(array: &[u8]) -> (crc: u32)
    ensures
        crc == crc32(array@),
{
    vorbis_crc32_update(0, array)
}

/// Continues a checksum: the register `cur` after the bytes of `array`.
pub fn vorbis_crc32_update(cur: u32, array: &[u8]) -> (crc: u32)
    ensures
        crc == crc_update(cur, array@),
{
    let table = lookup_array();
    let mut ret: u32 = cur;
    let mut i: usize = 0;
    while i < array.len()
        invariant
            i <= array.len(),
            ret == crc_update(cur, array@.take(i as int)),
            forall|j: int| 0 <= j < 256 ==> table[j] == table_entry(j as u32),
        decreases array.len() - i,
    {
        let byte: u8 = array[i];
        let idx: u32 = ((byte as u32) ^ (ret >> 24)) & 0xff;
        assert(idx < 256) by (bit_vector)
            requires
                idx == ((byte as u32) ^ (ret >> 24)) & 0xff,
        ;
        proof {
            assert(array@.take(i + 1).drop_last() == array@.take(i as int));
        }
        ret = (ret << 8) ^ table[idx as usize];
        i += 1;
    }
    proof {
        assert(array@.take(i as int) == array@);
    }
    ret
}

} // verus!
