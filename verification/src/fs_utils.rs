//! Small helpers on file names and file contents.
use vstd::prelude::*;
use std::hash::DefaultHasher;
use std::hash::Hasher;
use vstd::std_specs::hash::DefaultHasherAdditionalSpecFns;
use crate::path::{file_stem_spec, HotPath};

verus! {

/// Returns the file stem of a binary path.
pub fn bin_name(bin_path: &HotPath) -> (n: String)
    requires file_stem_spec(bin_path@) is Some,
    ensures Some(n@) == file_stem_spec(bin_path@),
{
    bin_path.file_stem().unwrap()
}

/// The `k` bytes of `n`, least significant first.
pub open spec fn le_bytes(n: nat, k: nat) -> Seq<u8>
    decreases k,
{
    if k == 0 {
        Seq::empty()
    } else {
        seq![(n % 256) as u8] + le_bytes(n / 256, (k - 1) as nat)
    }
}

/// The length prefix written before the bytes: the length as a `usize`, in the machine's
/// word size, least significant byte first.
pub open spec fn length_prefix(len: nat) -> Seq<u8> {
    le_bytes(len, (usize::BITS / 8) as nat)
}

/// The hash of `data`: what a fresh `DefaultHasher` finishes with after writing the
/// length prefix and then the bytes.
pub open spec fn hash_of(data: Seq<u8>) -> u64 {
    DefaultHasher::spec_finish(seq![length_prefix(data.len()), data])
}

fn length_bytes(n: usize) -> (r: Vec<u8>)
    ensures r@ == length_prefix(n as nat),
{
    let k: u32 = usize::BITS / 8;
    let mut v: usize = n;
    let mut out: Vec<u8> = Vec::new();
    let mut i: u32 = 0;
    while i < k
        invariant
            i <= k,
            k == usize::BITS / 8,
            out@ + le_bytes(v as nat, (k - i) as nat) == le_bytes(n as nat, k as nat),
        decreases k - i,
    {
        let ghost before = out@;
        out.push((v % 256) as u8);
        assert(le_bytes(v as nat, (k - i) as nat) == seq![(v as nat % 256) as u8] + le_bytes(
            v as nat / 256,
            (k - i - 1) as nat,
        ));
        assert(out@ + le_bytes(v as nat / 256, (k - i - 1) as nat) =~= before + le_bytes(
            v as nat,
            (k - i) as nat,
        ));
        v = v / 256;
        i = i + 1;
    }
    assert(out@ =~= out@ + le_bytes(v as nat, 0));
    out
}

/// Computes a 64-bit hash of `data`, used to avoid rewriting unchanged files: a fresh
/// `DefaultHasher` fed the length of `data` as a `usize` (least significant byte first)
/// and then its bytes. On a little-endian machine this is what `Hash for [u8]` feeds it.
pub fn hash(data: &[u8]) -> (r: u64)
    ensures r == hash_of(data@),
{
    let mut h = DefaultHasher::new();
    let prefix = length_bytes(data.len());
    h.write(prefix.as_slice());
    h.write(data);
    proof {
        assert(h@ =~= seq![length_prefix(data@.len()), data@]);
    }
    h.finish()
}

/// Whether a file must be written: when it has no contents yet, or when the hash of its
/// contents differs from the hash of the new contents.
pub fn needs_write(existing: Option<&[u8]>, content: &[u8]) -> (b: bool)
    ensures
        b == match existing {
            None => true,
            Some(c) => hash_of(c@) != hash_of(content@),
        },
{
    match existing {
        None => true,
        Some(c) => hash(c) != hash(content),
    }
}

} // verus!
