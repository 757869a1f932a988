use vstd::prelude::*;

use crate::arena::Arena;
use crate::bytes::{fits, le_u64, read_u64};
use crate::error::LoadError;
use crate::imports::{word_end, THUNK_SIZE};
use crate::structs::{DirectoryEntry, PeHeader, NUM_DATA_ENTRIES};

verus! {

/// The reason code handed to TLS callbacks and DLL entry points when a module attaches.
pub const DLL_PROCESS_ATTACH: u32 = 1;

pub const TLS_DIRECTORY_SIZE: usize = 32;

/// The leading fields of the TLS directory.
#[derive(Clone, Copy, Debug, PartialEq, Eq, Structural)]
pub struct TlsDirectory {
    pub address_of_raw_data: u64,
    pub end_address_of_raw_data: u64,
    pub address_of_index: u64,
    pub address_of_callbacks: u64,
}

impl TlsDirectory {
    pub open spec fn read_from(self, img: Seq<u8>, at: int) -> bool {
        &&& self.address_of_raw_data == le_u64(img, at)
        &&& self.end_address_of_raw_data == le_u64(img, at + 8)
        &&& self.address_of_index == le_u64(img, at + 16)
        &&& self.address_of_callbacks == le_u64(img, at + 24)
    }

    pub fn parse(img: &[u8], at: usize) -> (r: Option<TlsDirectory>)
        ensures
            r is Some <==> fits(img@, at as int, TLS_DIRECTORY_SIZE as int),
            r matches Some(d) ==> d.read_from(img@, at as int),
    {
        if at > img.len() || img.len() - at < TLS_DIRECTORY_SIZE {
            return None;
        }
        Some(TlsDirectory {
            address_of_raw_data: read_u64(img, at).unwrap(),
            end_address_of_raw_data: read_u64(img, at + 8).unwrap(),
            address_of_index: read_u64(img, at + 16).unwrap(),
            address_of_callbacks: read_u64(img, at + 24).unwrap(),
        })
    }
}

/// Reads the zero-terminated array of 64-bit words at `at`.
pub fn read_words(img: &[u8], at: usize) -> (r: Option<Vec<u64>>)
    ensures
        r is Some <==> word_end(img@, at as int, 0) >= 0,
        r matches Some(ws) ==> ws@.len() == word_end(img@, at as int, 0) && forall|j: int|
            0 <= j < ws@.len() ==> #[trigger] ws@[j] == le_u64(img@, at + THUNK_SIZE * j),
{
    let mut out: Vec<u64> = Vec::new();
    let mut j: usize = 0;
    proof {
        crate::imports::lemma_word_end(img@, at as int, 0);
    }
    loop
        invariant
            word_end(img@, at as int, 0) == word_end(img@, at as int, j as int),
            word_end(img@, at as int, 0) == -1 || j <= word_end(img@, at as int, 0),
            j == 0 || at + THUNK_SIZE * j <= img.len(),
            out@.len() == j,
            forall|i: int| 0 <= i < j ==> #[trigger] out@[i] == le_u64(img@, at + THUNK_SIZE * i),
        decreases img@.len() - (at + THUNK_SIZE * j),
    {
        let pos = at as u64 + THUNK_SIZE as u64 * j as u64;
        if pos > img.len() as u64 || img.len() as u64 - pos < THUNK_SIZE as u64 {
            return None;
        }
        let word = read_u64(img, pos as usize).unwrap();
        if word == 0 {
            assert(word_end(img@, at as int, j as int) == j);
            return Some(out);
        }
        out.push(word);
        proof {
            crate::imports::lemma_word_end(img@, at as int, j + 1);
        }
        j = j + 1;
    }
}

/// The callback addresses that the TLS directory at `dir` of the arena image `img`, mapped
/// at `base`, lists; `None` when the directory or the array runs out of the arena.
pub open spec fn callback_list(img: Seq<u8>, dir: int, base: u64) -> Option<Seq<u64>> {
    let cb = le_u64(img, dir + 24);
    let at = cb - base;
    if dir == 0 {
        Some(Seq::empty())
    } else if !fits(img, dir, TLS_DIRECTORY_SIZE as int) {
        None
    } else if cb == 0 {
        Some(Seq::empty())
    } else if word_end(img, at, 0) < 0 {
        None
    } else {
        Some(Seq::new(word_end(img, at, 0) as nat, |j: int| le_u64(img, at + THUNK_SIZE * j) as u64))
    }
}

/// The addresses of the TLS callbacks of an image mapped in `arena`, in order. The TLS
/// directory gives the callback array as an absolute address, already relocated.
pub fn tls_callbacks(h: &PeHeader, arena: &Arena) -> (r: Result<Vec<u64>, LoadError>)
    requires
        h.optional_header.data_entries@.len() == NUM_DATA_ENTRIES,
        arena.wf(),
    ensures
        match callback_list(
            arena.bytes@,
            h.optional_header.spec_data_entry(DirectoryEntry::Tls).virtual_address.value as int,
            arena.base,
        ) {
            None => r == Err::<Vec<u64>, LoadError>(LoadError::Malformed),
            Some(s) => r matches Ok(v) && v@ == s,
        },
{
    let dir = h.optional_header.data_entry(DirectoryEntry::Tls);
    if dir.virtual_address.value == 0 {
        let v: Vec<u64> = Vec::new();
        assert(v@ =~= Seq::<u64>::empty());
        return Ok(v);
    }
    let img = arena.bytes.as_slice();
    let td = match TlsDirectory::parse(img, dir.virtual_address.value as usize) {
        Some(d) => d,
        None => return Err(LoadError::Malformed),
    };
    let cb = td.address_of_callbacks;
    if cb == 0 {
        let v: Vec<u64> = Vec::new();
        assert(v@ =~= Seq::<u64>::empty());
        return Ok(v);
    }
    if cb < arena.base || cb - arena.base >= img.len() as u64 {
        return Err(LoadError::Malformed);
    }
    match read_words(img, (cb - arena.base) as usize) {
        Some(ws) => {
            assert(ws@ =~= callback_list(
                arena.bytes@,
                dir.virtual_address.value as int,
                arena.base,
            ).unwrap());
            Ok(ws)
        },
        None => Err(LoadError::Malformed),
    }
}

} // verus!
