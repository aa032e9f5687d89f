//! Little-endian encoding of unsigned integers.

use vstd::prelude::*;

verus! {

/// The `width` low bytes of `value`, least significant first.
pub open spec fn le_bytes(value: nat, width: nat) -> Seq<u8>
    decreases width,
{
    if width == 0 {
        Seq::empty()
    } else {
        seq![(value % 256) as u8] + le_bytes(value / 256, (width - 1) as nat)
    }
}

/// An encoding has as many bytes as were asked for.
pub proof fn lemma_le_bytes_len(value: nat, width: nat)
    ensures
        le_bytes(value, width).len() == width,
    decreases width,
{
    if width > 0 {
        lemma_le_bytes_len(value / 256, (width - 1) as nat);
    }
}

/// Appends the two bytes of `value`, least significant first.
pub fn push_le_u16(buf: &mut Vec<u8>, value: u16)
    ensures
        final(buf)@ == old(buf)@ + le_bytes(value as nat, 2),
{
    let b0: u8 = (value % 256) as u8;
    let b1: u8 = (value / 256) as u8;
    buf.push(b0);
    buf.push(b1);
    proof {
        reveal_with_fuel(le_bytes, 3);
        assert(buf@ =~= old(buf)@ + le_bytes(value as nat, 2));
    }
}

/// Appends the four bytes of `value`, least significant first.
pub fn push_le_u32(buf: &mut Vec<u8>, value: u32)
    ensures
        final(buf)@ == old(buf)@ + le_bytes(value as nat, 4),
{
    let b0: u8 = (value % 256) as u8;
    let v1: u32 = value / 256;
    let b1: u8 = (v1 % 256) as u8;
    let v2: u32 = v1 / 256;
    let b2: u8 = (v2 % 256) as u8;
    let b3: u8 = (v2 / 256) as u8;
    buf.push(b0);
    buf.push(b1);
    buf.push(b2);
    buf.push(b3);
    proof {
        reveal_with_fuel(le_bytes, 5);
        assert(buf@ =~= old(buf)@ + le_bytes(value as nat, 4));
    }
}

/// Appends the eight bytes of `value`, least significant first.
pub fn push_le_u64(buf: &mut Vec<u8>, value: u64)
    ensures
        final(buf)@ == old(buf)@ + le_bytes(value as nat, 8),
{
    let ghost before = buf@;
    let mut rest: u64 = value;
    let mut i: usize = 0;
    while i < 8
        invariant
            i <= 8,
            before + le_bytes(value as nat, 8) == buf@ + le_bytes(rest as nat, (8 - i) as nat),
        decreases 8 - i,
    {
        let ghost prev = buf@;
        buf.push((rest % 256) as u8);
        proof {
            assert(prev + le_bytes(rest as nat, (8 - i) as nat) =~= buf@ + le_bytes(
                (rest / 256) as nat,
                (8 - i - 1) as nat,
            ));
        }
        rest = rest / 256;
        i += 1;
    }
    proof {
        assert(buf@ + le_bytes(rest as nat, 0) =~= buf@);
    }
}

} // verus!
