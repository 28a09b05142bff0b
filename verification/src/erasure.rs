//! Trusted interface to the Reed-Solomon erasure code of the
//! `reed-solomon-erasure` crate over GF(2^8).
//!
//! What the code computes (parity bytes, rebuilt shards) is named, not written
//! out. Beside the names stand the facts the crate documents: `encode` leaves
//! the data shards alone and overwrites only the parity slots, `reconstruct`
//! fills only the missing slots and touches nothing on error, and any data
//! shards can be rebuilt from any `data_shards` of the encoded shards.

use reed_solomon_erasure::galois_8::Field as Gf8;
use vstd::prelude::*;

verus! {

/// A Reed-Solomon codec of reed-solomon-erasure over GF(2^8). Verus refuses
/// a declaration of `ReedSolomon<F: Field>` (its bound names a trait of that
/// crate), so the codec is held here, opaque to Verus; what the contracts need
/// of it is named below.
#[verifier::external_body]
pub struct ErasureCodec {
    rs: reed_solomon_erasure::ReedSolomon<Gf8>,
}

#[verifier::external_type_specification]
#[verifier::external_body]
pub struct ExRsError(reed_solomon_erasure::Error);

/// Number of data shards a codec was made with.
pub uninterp spec fn rs_data_shards(rs: ErasureCodec) -> nat;

/// Number of parity shards a codec was made with.
pub uninterp spec fn rs_parity_shards(rs: ErasureCodec) -> nat;

/// The parity shards that the code computes for `data` (all of one length)
/// when it has `parity_shards` parity shards.
pub uninterp spec fn rs_parity(data: Seq<Seq<u8>>, parity_shards: nat) -> Seq<Seq<u8>>;

/// The full set of shards that the code rebuilds from the present ones.
pub uninterp spec fn rs_rebuilt(
    shards: Seq<Option<Seq<u8>>>,
    data_shards: nat,
    parity_shards: nat,
) -> Seq<Seq<u8>>;

/// Byte contents of a sequence of byte vectors.
pub open spec fn shard_views(v: Seq<Vec<u8>>) -> Seq<Seq<u8>> {
    Seq::new(v.len(), |k: int| v[k]@)
}

/// Byte contents of a sequence of optional byte vectors.
pub open spec fn opt_shard_views(v: Seq<Option<Vec<u8>>>) -> Seq<Option<Seq<u8>>> {
    Seq::new(
        v.len(),
        |k: int|
            match v[k] {
                Some(s) => Some(s@),
                None => None,
            },
    )
}

/// Number of shards present among the first `n`.
pub open spec fn count_present(s: Seq<Option<Seq<u8>>>, n: int) -> nat
    decreases n,
{
    if n <= 0 {
        0
    } else {
        count_present(s, n - 1) + if s[n - 1] is Some {
            1nat
        } else {
            0nat
        }
    }
}

/// All present shards have the same, nonzero length `n`.
pub open spec fn present_of_len(s: Seq<Option<Seq<u8>>>, n: nat) -> bool {
    &&& n > 0
    &&& forall|k: int| 0 <= k < s.len() && #[trigger] s[k] is Some ==> s[k].unwrap().len() == n
}

/// The shards that encoding `data` produces: the data shards, then parity.
pub open spec fn codeword(data: Seq<Seq<u8>>, parity_shards: nat) -> Seq<Seq<u8>> {
    data + rs_parity(data, parity_shards)
}

/// `ReedSolomon::new` of reed-solomon-erasure over GF(2^8).
/// Claimed, as its source shows: it fails exactly when there is no data shard,
/// no parity shard, or more than 256 shards in all; a codec it makes keeps
/// both counts. (It adds the two counts, so their sum must fit.)
#[verifier::external_body]
pub fn rs_new(data_shards: usize, parity_shards: usize) -> (r: Result<
    ErasureCodec,
    reed_solomon_erasure::Error,
>)
    requires
        data_shards + parity_shards <= usize::MAX,
    ensures
        r is Ok <==> (data_shards > 0 && parity_shards > 0 && data_shards + parity_shards <= 256),
        r matches Ok(rs) ==> rs_data_shards(rs) == data_shards && rs_parity_shards(rs)
            == parity_shards,
{
    match reed_solomon_erasure::ReedSolomon::<Gf8>::new(data_shards, parity_shards) {
        Ok(rs) => Ok(ErasureCodec { rs }),
        Err(e) => Err(e),
    }
}

/// The encoded set `cw` (its first `data_shards` shards being data) can be
/// rebuilt from any `data_shards` of its shards: whatever slots are missing,
/// the rebuilt set is `cw` itself.
pub open spec fn recoverable(cw: Seq<Seq<u8>>, data_shards: nat, parity_shards: nat) -> bool {
    forall|s: Seq<Option<Seq<u8>>>|
        #![trigger rs_rebuilt(s, data_shards, parity_shards)]
        s.len() == cw.len() && count_present(s, s.len() as int) >= data_shards && (forall|k: int|
            0 <= k < s.len() && #[trigger] s[k] is Some ==> s[k].unwrap() == cw[k])
            ==> rs_rebuilt(s, data_shards, parity_shards) == cw
}

/// `ReedSolomon::encode` of reed-solomon-erasure.
/// Claimed, as its source shows: it succeeds exactly when there are as many
/// shards as the codec has and all have one nonzero length; then the data
/// shards stay as they were, every shard keeps its length and the parity slots
/// hold the computed parity; on failure nothing changed. Claimed, as the
/// crate's documentation shows (up to `parity_shards` shards may be removed
/// and `reconstruct` gives the encoded set back): the encoded set is
/// recoverable from any `data_shards` of its shards.
#[verifier::external_body]
pub fn rs_encode(
    rs: &ErasureCodec,
    shards: &mut Vec<Vec<u8>>,
) -> (r: Result<(), reed_solomon_erasure::Error>)
    ensures
        ({
            let d = rs_data_shards(*rs);
            let p = rs_parity_shards(*rs);
            let old_s = shard_views(old(shards)@);
            let new_s = shard_views(final(shards)@);
            &&& r is Ok <==> (old_s.len() == d + p && old_s[0].len() > 0 && forall|k: int|
                0 <= k < old_s.len() ==> #[trigger] old_s[k].len() == old_s[0].len())
            &&& r is Ok ==> new_s == old_s.subrange(0, d as int) + rs_parity(
                old_s.subrange(0, d as int),
                p,
            )
            &&& r is Ok ==> new_s.len() == old_s.len() && forall|k: int|
                0 <= k < new_s.len() ==> #[trigger] new_s[k].len() == old_s[k].len()
            &&& r is Ok ==> recoverable(new_s, d, p)
            &&& r is Err ==> final(shards)@ == old(shards)@
        }),
{
    rs.rs.encode(shards)
}

/// `ReedSolomon::reconstruct` of reed-solomon-erasure.
/// Claimed, as its source and documentation show: it succeeds exactly when
/// there are as many slots as the codec has shards, the present shards share
/// one nonzero length and at least `data_shards` of them are present; then
/// every slot holds a shard of that length, the present ones unchanged, the
/// whole being the rebuilt set. On failure nothing changed.
#[verifier::external_body]
pub fn rs_reconstruct(
    rs: &ErasureCodec,
    shards: &mut Vec<Option<Vec<u8>>>,
) -> (r: Result<(), reed_solomon_erasure::Error>)
    ensures
        ({
            let d = rs_data_shards(*rs);
            let p = rs_parity_shards(*rs);
            let old_s = opt_shard_views(old(shards)@);
            let new_s = opt_shard_views(final(shards)@);
            &&& r is Ok <==> (old_s.len() == d + p && count_present(old_s, old_s.len() as int)
                >= d && exists|n: nat| present_of_len(old_s, n))
            &&& r is Ok ==> new_s.len() == old_s.len() && forall|k: int|
                0 <= k < new_s.len() ==> {
                    &&& #[trigger] new_s[k] is Some
                    &&& new_s[k].unwrap() == rs_rebuilt(old_s, d, p)[k]
                    &&& old_s[k] is Some ==> new_s[k] == old_s[k]
                }
            &&& r is Ok ==> forall|n: nat|
                #![trigger present_of_len(old_s, n)]
                present_of_len(old_s, n) ==> forall|k: int|
                    0 <= k < new_s.len() ==> #[trigger] new_s[k].unwrap().len() == n
            &&& r is Err ==> final(shards)@ == old(shards)@
        }),
{
    rs.rs.reconstruct(shards)
}

} // verus!
