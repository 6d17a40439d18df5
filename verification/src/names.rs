//! Artifact naming: per-partition shard files, the combined file and the
//! compressed file, and the discovery rule the consolidation uses to find
//! shard files in a directory listing.

use vstd::prelude::*;

use crate::encode::{
    ascii_bytes, bytes_equal, bytes_of, contains_sub, dec_digits, dec_u64, has_sub, is_match_at,
    lemma_dec_digits_range,
};

verus! {

pub open spec fn json_ext() -> Seq<u8> {
    bytes_of(".json"@)
}

pub open spec fn gz_ext() -> Seq<u8> {
    bytes_of(".gz"@)
}

pub open spec fn dash() -> Seq<u8> {
    bytes_of("-"@)
}

/// The combined artifact's name: the collection name with the `.json` extension.
pub open spec fn spec_combined_name(c: Seq<u8>) -> Seq<u8> {
    c + json_ext()
}

/// A shard file's name: collection, a dash, the partition index, `.json`.
pub open spec fn spec_shard_name(c: Seq<u8>, i: nat) -> Seq<u8> {
    c + dash() + dec_digits(i) + json_ext()
}

/// The compressed artifact's name: the collection name with the `.gz` extension.
pub open spec fn spec_compressed_name(c: Seq<u8>) -> Seq<u8> {
    c + gz_ext()
}

/// Appends all of `src` to `out`.
pub fn append_bytes(out: &mut Vec<u8>, src: &Vec<u8>)
    ensures
        final(out)@ == old(out)@ + src@,
{
    let mut k: usize = 0;
    while k < src.len()
        invariant
            0 <= k <= src@.len(),
            out@ == old(out)@ + src@.take(k as int),
        decreases src@.len() - k,
    {
        out.push(src[k]);
        proof {
            assert(old(out)@ + src@.take(k as int + 1) =~= (old(out)@ + src@.take(k as int)).push(
                src@[k as int],
            ));
        }
        k += 1;
    }
    proof {
        assert(old(out)@ + src@.take(src@.len() as int) =~= old(out)@ + src@);
    }
}

pub fn combined_name(collection: &Vec<u8>) -> (r: Vec<u8>)
    ensures
        r@ == spec_combined_name(collection@),
{
    let mut out: Vec<u8> = Vec::new();
    append_bytes(&mut out, collection);
    proof {
        reveal_strlit((".json"));
    }
    let ext = ascii_bytes((".json"));
    append_bytes(&mut out, &ext);
    proof {
        assert(out@ =~= spec_combined_name(collection@));
    }
    out
}

pub fn shard_name(collection: &Vec<u8>, index: u64) -> (r: Vec<u8>)
    ensures
        r@ == spec_shard_name(collection@, index as nat),
{
    let mut out: Vec<u8> = Vec::new();
    append_bytes(&mut out, collection);
    proof {
        reveal_strlit(("-"));
    }
    let sep = ascii_bytes(("-"));
    append_bytes(&mut out, &sep);
    let digits = dec_u64(index);
    append_bytes(&mut out, &digits);
    proof {
        reveal_strlit((".json"));
    }
    let ext = ascii_bytes((".json"));
    append_bytes(&mut out, &ext);
    proof {
        assert(out@ =~= spec_shard_name(collection@, index as nat));
    }
    out
}

pub fn compressed_name(collection: &Vec<u8>) -> (r: Vec<u8>)
    ensures
        r@ == spec_compressed_name(collection@),
{
    let mut out: Vec<u8> = Vec::new();
    append_bytes(&mut out, collection);
    proof {
        reveal_strlit((".gz"));
    }
    let ext = ascii_bytes((".gz"));
    append_bytes(&mut out, &ext);
    proof {
        assert(out@ =~= spec_compressed_name(collection@));
    }
    out
}

/// A shard file's name never equals the combined file's name: the shard
/// name is strictly longer, so the combined artifact can never be consumed
/// as one of its own inputs.
pub proof fn lemma_shard_name_not_combined(c: Seq<u8>, i: nat)
    ensures
        spec_shard_name(c, i) != spec_combined_name(c),
{
    reveal_strlit(".json");
    reveal_strlit("-");
    lemma_dec_digits_range(i);
    assert(spec_shard_name(c, i).len() > spec_combined_name(c).len());
}

/// The discovery rule of the consolidation: a directory entry is taken as a
/// shard of `c` when its name contains the collection name and is not the
/// combined artifact's exact name.
pub open spec fn spec_is_shard_candidate(name: Seq<u8>, c: Seq<u8>) -> bool {
    has_sub(name, c) && name != spec_combined_name(c)
}

pub fn is_shard_candidate(name: &Vec<u8>, collection: &Vec<u8>) -> (r: bool)
    ensures
        r == spec_is_shard_candidate(name@, collection@),
{
    if !contains_sub(name, collection) {
        return false;
    }
    let combined = combined_name(collection);
    !bytes_equal(name, &combined)
}

/// Every shard name contains its collection's name, from the very start.
pub proof fn lemma_shard_name_contains_collection(c: Seq<u8>, i: nat)
    ensures
        has_sub(spec_shard_name(c, i), c),
{
    assert(spec_shard_name(c, i).subrange(0, c.len() as int) =~= c);
    assert(is_match_at(spec_shard_name(c, i), c, 0));
}

/// Every shard name is picked up by the discovery rule, for every
/// collection: it contains the collection's name and never equals the
/// combined artifact's name.
pub proof fn lemma_shard_discovered(c: Seq<u8>, i: nat)
    ensures
        spec_is_shard_candidate(spec_shard_name(c, i), c),
{
    lemma_shard_name_contains_collection(c, i);
    lemma_shard_name_not_combined(c, i);
}

} // verus!
