use vstd::prelude::*;

verus! {

broadcast use vstd::array::group_array_axioms;

/// A 32-byte public identifier: a caller, a program namespace or a record key.
#[derive(Clone, Copy, Debug, PartialEq, Eq, Hash)]
pub struct Identity {
    pub bytes: [u8; 32],
}

impl View for Identity {
    type V = Seq<u8>;

    open spec fn view(&self) -> Seq<u8> {
        self.bytes@
    }
}

impl Identity {
    /// Byte-wise equality of two identities.
    pub fn same(&self, other: &Identity) -> (r: bool)
        ensures
            r == (self@ == other@),
    {
        let mut i: usize = 0;
        while i < 32
            invariant
                0 <= i <= 32,
                self@.len() == 32,
                other@.len() == 32,
                forall|j: int| 0 <= j < i ==> self@[j] == other@[j],
            decreases 32 - i,
        {
            if self.bytes[i] != other.bytes[i] {
                assert(self@[i as int] != other@[i as int]);
                return false;
            }
            i = i + 1;
        }
        assert(self@ =~= other@);
        true
    }

    /// The identity's bytes, in order.
    pub fn to_vec(&self) -> (r: Vec<u8>)
        ensures
            r@ == self@,
    {
        let mut out: Vec<u8> = Vec::new();
        let mut i: usize = 0;
        while i < 32
            invariant
                0 <= i <= 32,
                self@.len() == 32,
                out@ == self@.subrange(0, i as int),
            decreases 32 - i,
        {
            out.push(self.bytes[i]);
            i = i + 1;
            assert(out@ =~= self@.subrange(0, i as int));
        }
        assert(self@.subrange(0, 32) =~= self@);
        out
    }
}

/// The eight little-endian bytes of `x`, least significant first.
pub open spec fn le_bytes(x: u64) -> Seq<u8> {
    seq![
        (x % 0x100) as u8,
        (x / 0x100 % 0x100) as u8,
        (x / 0x1_0000 % 0x100) as u8,
        (x / 0x100_0000 % 0x100) as u8,
        (x / 0x1_0000_0000 % 0x100) as u8,
        (x / 0x100_0000_0000 % 0x100) as u8,
        (x / 0x1_0000_0000_0000 % 0x100) as u8,
        (x / 0x100_0000_0000_0000 % 0x100) as u8,
    ]
}

/// The unsigned number that the first eight bytes of `s` spell in little-endian order.
pub open spec fn le_value(s: Seq<u8>) -> int
    recommends
        s.len() >= 8,
{
    s[0] as int + s[1] as int * 0x100 + s[2] as int * 0x1_0000 + s[3] as int * 0x100_0000
        + s[4] as int * 0x1_0000_0000 + s[5] as int * 0x100_0000_0000 + s[6] as int
        * 0x1_0000_0000_0000 + s[7] as int * 0x100_0000_0000_0000
}

/// The two's complement bit pattern of `t`, read as unsigned.
pub open spec fn i64_bits(t: i64) -> u64 {
    if t >= 0 {
        t as u64
    } else {
        (t as int + 0x1_0000_0000_0000_0000) as u64
    }
}

/// Appends the little-endian bytes of `x` to `out`.
pub fn push_le_u64(out: &mut Vec<u8>, x: u64)
    ensures
        final(out)@ == old(out)@ + le_bytes(x),
{
    out.push((x % 0x100) as u8);
    out.push((x / 0x100 % 0x100) as u8);
    out.push((x / 0x1_0000 % 0x100) as u8);
    out.push((x / 0x100_0000 % 0x100) as u8);
    out.push((x / 0x1_0000_0000 % 0x100) as u8);
    out.push((x / 0x100_0000_0000 % 0x100) as u8);
    out.push((x / 0x1_0000_0000_0000 % 0x100) as u8);
    out.push((x / 0x100_0000_0000_0000 % 0x100) as u8);
    assert(out@ =~= old(out)@ + le_bytes(x));
}

/// The two's complement bit pattern of a signed value.
pub fn bits_of_i64(t: i64) -> (r: u64)
    ensures
        r == i64_bits(t),
{
    if t >= 0 {
        t as u64
    } else {
        let m: i64 = -(t + 1);
        0xffff_ffff_ffff_ffffu64 - (m as u64)
    }
}

/// The little-endian value of the first eight bytes of a 32-byte digest.
pub fn le_u64_prefix(d: &[u8; 32]) -> (r: u64)
    ensures
        r as int == le_value(d@),
{
    (d[0] as u64) + (d[1] as u64) * 0x100 + (d[2] as u64) * 0x1_0000 + (d[3] as u64)
        * 0x100_0000 + (d[4] as u64) * 0x1_0000_0000 + (d[5] as u64) * 0x100_0000_0000 + (
    d[6] as u64) * 0x1_0000_0000_0000 + (d[7] as u64) * 0x100_0000_0000_0000
}

} // verus!
