use vstd::prelude::*;

verus! {

/// Little-endian 16-bit value stored at `i`.
pub open spec fn le_u16(s: Seq<u8>, i: int) -> int {
    s[i] + 256 * s[i + 1]
}

/// Little-endian 32-bit value stored at `i`.
pub open spec fn le_u32(s: Seq<u8>, i: int) -> int {
    le_u16(s, i) + 65536 * le_u16(s, i + 2)
}

/// Little-endian 64-bit value stored at `i`.
pub open spec fn le_u64(s: Seq<u8>, i: int) -> int {
    le_u32(s, i) + 0x1_0000_0000 * le_u32(s, i + 4)
}

/// `s` with the 16-bit value `x` stored little-endian at `i`.
pub open spec fn put_u16(s: Seq<u8>, i: int, x: int) -> Seq<u8> {
    s.update(i, (x % 256) as u8).update(i + 1, (x / 256) as u8)
}

/// `s` with the 32-bit value `x` stored little-endian at `i`.
pub open spec fn put_u32(s: Seq<u8>, i: int, x: int) -> Seq<u8> {
    put_u16(put_u16(s, i, x % 65536), i + 2, x / 65536)
}

/// `s` with the 64-bit value `x` stored little-endian at `i`.
pub open spec fn put_u64(s: Seq<u8>, i: int, x: int) -> Seq<u8> {
    put_u32(put_u32(s, i, x % 0x1_0000_0000), i + 4, x / 0x1_0000_0000)
}

/// `n` bytes of `s` fit at offset `i`.
pub open spec fn fits(s: Seq<u8>, i: int, n: int) -> bool {
    0 <= i && i + n <= s.len()
}

/// Index of the first zero byte at or after `i`, or -1 when there is none.
pub open spec fn nul_from(s: Seq<u8>, i: int) -> int
    decreases s.len() - i,
{
    if i < 0 || i >= s.len() {
        -1
    } else if s[i] == 0 {
        i
    } else {
        nul_from(s, i + 1)
    }
}

/// The zero-terminated string that starts at `i`, if a terminator follows it.
pub open spec fn cstr_at(s: Seq<u8>, i: int) -> Option<Seq<u8>> {
    if nul_from(s, i) < 0 {
        None
    } else {
        Some(s.subrange(i, nul_from(s, i)))
    }
}

pub proof fn lemma_put_u16(s: Seq<u8>, i: int, x: int)
    requires
        fits(s, i, 2),
        0 <= x < 0x1_0000,
    ensures
        put_u16(s, i, x).len() == s.len(),
        le_u16(put_u16(s, i, x), i) == x,
        forall|k: int| (k < i || k >= i + 2) && 0 <= k < s.len() ==> put_u16(s, i, x)[k] == s[k],
{
}

pub proof fn lemma_put_u32(s: Seq<u8>, i: int, x: int)
    requires
        fits(s, i, 4),
        0 <= x < 0x1_0000_0000,
    ensures
        put_u32(s, i, x).len() == s.len(),
        le_u32(put_u32(s, i, x), i) == x,
        forall|k: int| (k < i || k >= i + 4) && 0 <= k < s.len() ==> put_u32(s, i, x)[k] == s[k],
{
    lemma_put_u16(s, i, x % 65536);
    lemma_put_u16(put_u16(s, i, x % 65536), i + 2, x / 65536);
}

pub proof fn lemma_put_u64(s: Seq<u8>, i: int, x: int)
    requires
        fits(s, i, 8),
        0 <= x < 0x1_0000_0000_0000_0000,
    ensures
        put_u64(s, i, x).len() == s.len(),
        le_u64(put_u64(s, i, x), i) == x,
        forall|k: int| (k < i || k >= i + 8) && 0 <= k < s.len() ==> put_u64(s, i, x)[k] == s[k],
{
    lemma_put_u32(s, i, x % 0x1_0000_0000);
    lemma_put_u32(put_u32(s, i, x % 0x1_0000_0000), i + 4, x / 0x1_0000_0000);
}

/// Reads a little-endian `u16` at `i`, if it lies inside `s`.
pub fn read_u16(s: &[u8], i: usize) -> (r: Option<u16>)
    ensures
        r is Some <==> fits(s@, i as int, 2),
        r matches Some(v) ==> v == le_u16(s@, i as int),
{
    if i > s.len() || s.len() - i < 2 {
        None
    } else {
        Some(s[i] as u16 + 256 * (s[i + 1] as u16))
    }
}

/// Reads a little-endian `u32` at `i`, if it lies inside `s`.
pub fn read_u32(s: &[u8], i: usize) -> (r: Option<u32>)
    ensures
        r is Some <==> fits(s@, i as int, 4),
        r matches Some(v) ==> v == le_u32(s@, i as int),
{
    if i > s.len() || s.len() - i < 4 {
        None
    } else {
        let lo = s[i] as u32 + 256 * (s[i + 1] as u32);
        let hi = s[i + 2] as u32 + 256 * (s[i + 3] as u32);
        Some(lo + 65536 * hi)
    }
}

/// Reads a little-endian `u64` at `i`, if it lies inside `s`.
pub fn read_u64(s: &[u8], i: usize) -> (r: Option<u64>)
    ensures
        r is Some <==> fits(s@, i as int, 8),
        r matches Some(v) ==> v == le_u64(s@, i as int),
{
    if i > s.len() || s.len() - i < 8 {
        None
    } else {
        let lo = read_u32(s, i).unwrap();
        let hi = read_u32(s, i + 4).unwrap();
        Some(lo as u64 + 0x1_0000_0000 * (hi as u64))
    }
}

/// Stores `x` little-endian at `i`.
pub fn write_u16(s: &mut Vec<u8>, i: usize, x: u16)
    requires
        fits(old(s)@, i as int, 2),
    ensures
        final(s)@ == put_u16(old(s)@, i as int, x as int),
        final(s)@.len() == old(s)@.len(),
{
    assert(i + 1 < s.len());
    s.set(i, (x % 256) as u8);
    s.set(i + 1, (x / 256) as u8);
}

/// Stores `x` little-endian at `i`.
pub fn write_u32(s: &mut Vec<u8>, i: usize, x: u32)
    requires
        fits(old(s)@, i as int, 4),
    ensures
        final(s)@ == put_u32(old(s)@, i as int, x as int),
        final(s)@.len() == old(s)@.len(),
{
    assert(i + 3 < s.len());
    write_u16(s, i, (x % 65536) as u16);
    write_u16(s, i + 2, (x / 65536) as u16);
}

/// Stores `x` little-endian at `i`.
pub fn write_u64(s: &mut Vec<u8>, i: usize, x: u64)
    requires
        fits(old(s)@, i as int, 8),
    ensures
        final(s)@ == put_u64(old(s)@, i as int, x as int),
        final(s)@.len() == old(s)@.len(),
{
    assert(i + 7 < s.len());
    write_u32(s, i, (x % 0x1_0000_0000) as u32);
    write_u32(s, i + 4, (x / 0x1_0000_0000) as u32);
}

/// The zero-terminated string at `i`, without its terminator.
pub fn read_cstr(s: &[u8], i: usize) -> (r: Option<Vec<u8>>)
    ensures
        r matches Some(v) ==> cstr_at(s@, i as int) == Some(v@),
        r is None ==> cstr_at(s@, i as int) is None,
{
    let mut out: Vec<u8> = Vec::new();
    let mut j: usize = i;
    if j >= s.len() {
        return None;
    }
    while j < s.len()
        invariant
            i <= j <= s.len(),
            nul_from(s@, i as int) == nul_from(s@, j as int),
            out@ == s@.subrange(i as int, j as int),
        decreases s.len() - j,
    {
        if s[j] == 0 {
            return Some(out);
        }
        out.push(s[j]);
        j = j + 1;
        assert(out@ == s@.subrange(i as int, j as int));
    }
    None
}

} // verus!
