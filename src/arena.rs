use vstd::prelude::*;

use crate::bytes::fits;

verus! {

/// `img` with `src` laid over it from offset `at`.
pub open spec fn copy_at(img: Seq<u8>, at: int, src: Seq<u8>) -> Seq<u8> {
    img.take(at) + src + img.skip(at + src.len())
}

/// `n` zero bytes.
pub open spec fn zeros(n: int) -> Seq<u8> {
    Seq::new(n as nat, |i: int| 0u8)
}

/// The committed memory that holds a mapped image: where it starts and what it holds.
pub struct Arena {
    pub base: u64,
    pub bytes: Vec<u8>,
}

impl Arena {
    /// Every address inside the arena fits in 64 bits.
    pub open spec fn wf(&self) -> bool {
        self.base + self.bytes@.len() <= u64::MAX
    }

    /// A zero-filled arena of `size` bytes at address `base`.
    pub fn zeroed(base: u64, size: usize) -> (r: Arena)
        requires
            base + size <= u64::MAX,
        ensures
            r.wf(),
            r.base == base,
            r.bytes@ == zeros(size as int),
    {
        let mut bytes: Vec<u8> = Vec::with_capacity(size);
        let mut i: usize = 0;
        while i < size
            invariant
                i <= size,
                bytes@ == zeros(i as int),
            decreases size - i,
        {
            bytes.push(0u8);
            i = i + 1;
            assert(bytes@ =~= zeros(i as int));
        }
        Arena { base, bytes }
    }

    /// The address of byte `offset` of the arena.
    pub fn resolve(&self, offset: u32) -> (r: u64)
        requires
            self.wf(),
            offset <= self.bytes@.len(),
        ensures
            r == self.base + offset,
    {
        self.base + offset as u64
    }

    pub fn len(&self) -> (r: usize)
        ensures
            r == self.bytes@.len(),
    {
        self.bytes.len()
    }
}

/// Copies `n` bytes of `src`, from `from` on, to `dst` at `at`.
pub fn copy_into(dst: &mut Vec<u8>, at: usize, src: &[u8], from: usize, n: usize)
    requires
        fits(old(dst)@, at as int, n as int),
        fits(src@, from as int, n as int),
    ensures
        final(dst)@ == copy_at(old(dst)@, at as int, src@.subrange(from as int, from + n)),
{
    let ghost d0 = dst@;
    let mut k: usize = 0;
    while k < n
        invariant
            k <= n,
            fits(d0, at as int, n as int),
            fits(src@, from as int, n as int),
            dst@ == copy_at(d0, at as int, src@.subrange(from as int, from + k)),
        decreases n - k,
    {
        assert(at + k < dst.len());
        assert(from + k < src.len());
        dst.set(at + k, src[from + k]);
        k = k + 1;
        assert(dst@ =~= copy_at(d0, at as int, src@.subrange(from as int, from + k)));
    }
}

/// Writes `n` zero bytes into `dst` at `at`.
pub fn fill_zero(dst: &mut Vec<u8>, at: usize, n: usize)
    requires
        fits(old(dst)@, at as int, n as int),
    ensures
        final(dst)@ == copy_at(old(dst)@, at as int, zeros(n as int)),
{
    let ghost d0 = dst@;
    let mut k: usize = 0;
    while k < n
        invariant
            k <= n,
            fits(d0, at as int, n as int),
            dst@ == copy_at(d0, at as int, zeros(k as int)),
        decreases n - k,
    {
        assert(at + k < dst.len());
        dst.set(at + k, 0u8);
        k = k + 1;
        assert(dst@ =~= copy_at(d0, at as int, zeros(k as int)));
    }
}

} // verus!
