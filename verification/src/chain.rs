//! Continuity chain over the segments of an archive.
//!
//! Each segment stores the BLAKE3 hash of its ciphertext and a continuity
//! value: `c_0 = BLAKE3("sealedge:genesis")` and, for segment `i`,
//! `c_{i+1} = BLAKE3(c_i || hash_i)`.  The stored continuity of segment `i`
//! must equal `c_{i+1}`, which binds every segment to all that precede it.

use crate::codec::push_all;
use crate::error::ChainError;
use crate::primitives::{base64_encode, base64_text_of, blake3_hash, blake3_of, hex_encode};
use crate::text::{bytes_equal, concat_str, hex_text};
use vstd::prelude::*;

verus! {

/// The genesis seed `sealedge:genesis`.
pub open spec fn genesis_seed() -> Seq<u8> {
    seq![
        115u8, 101u8, 97u8, 108u8, 101u8, 100u8, 103u8, 101u8, 58u8, 103u8, 101u8, 110u8, 101u8,
        115u8, 105u8, 115u8,
    ]
}

/// BLAKE3 hash bytes as base64 with the `b3:` prefix, for manifest storage.
pub fn blake3_hex_or_b64(bytes: &[u8]) -> (r: String)
    ensures
        r@ == "b3:"@ + base64_text_of(bytes@),
{
    let b64 = base64_encode(bytes);
    concat_str("b3:", b64.as_str())
}

/// BLAKE3 hash of a segment's ciphertext.
pub fn segment_hash(ciphertext: &[u8]) -> (r: [u8; 32])
    ensures
        r@ == blake3_of(ciphertext@),
{
    blake3_hash(ciphertext)
}

/// One step of the chain: `BLAKE3(prev || curr)`.
pub open spec fn chain_step(prev: Seq<u8>, curr: Seq<u8>) -> Seq<u8> {
    blake3_of(prev + curr)
}

/// Next continuity value: `BLAKE3(prev || curr)`.
pub fn chain_next(prev: &[u8; 32], curr: &[u8; 32]) -> (r: [u8; 32])
    ensures
        r@ == chain_step(prev@, curr@),
{
    let mut input: Vec<u8> = Vec::new();
    push_all(&mut input, prev.as_slice());
    push_all(&mut input, curr.as_slice());
    blake3_hash(input.as_slice())
}

/// The genesis continuity value `BLAKE3(genesis_seed)`.
pub open spec fn genesis_value() -> Seq<u8> {
    blake3_of(genesis_seed())
}

pub fn genesis() -> (r: [u8; 32])
    ensures
        r@ == genesis_value(),
{
    let seed: Vec<u8> = vec![
        115u8, 101u8, 97u8, 108u8, 101u8, 100u8, 103u8, 101u8, 58u8, 103u8, 101u8, 110u8, 101u8,
        115u8, 105u8, 115u8,
    ];
    assert(seed@ =~= genesis_seed());
    blake3_hash(seed.as_slice())
}

/// A segment with its stored hash and continuity value.
#[derive(Debug, Clone)]
pub struct ChainSegment {
    pub index: usize,
    pub stored_hash: [u8; 32],
    pub stored_continuity: [u8; 32],
}

/// A segment as values: its index, stored hash and stored continuity.
pub type SegmentView = (usize, Seq<u8>, Seq<u8>);

impl View for ChainSegment {
    type V = (usize, Seq<u8>, Seq<u8>);

    open spec fn view(&self) -> (usize, Seq<u8>, Seq<u8>) {
        (self.index, self.stored_hash@, self.stored_continuity@)
    }
}

/// The values of a sequence of segments.
pub open spec fn segment_views(segments: Seq<ChainSegment>) -> Seq<SegmentView> {
    segments.map_values(|s: ChainSegment| s@)
}

/// Continuity value after the first `k` segment hashes.
pub open spec fn continuity(hashes: Seq<Seq<u8>>, k: nat) -> Seq<u8>
    decreases k,
{
    if k == 0 {
        genesis_value()
    } else {
        chain_step(continuity(hashes, (k - 1) as nat), hashes[k - 1])
    }
}

/// The stored hashes of segments.
pub open spec fn stored_hashes(segs: Seq<SegmentView>) -> Seq<Seq<u8>> {
    segs.map_values(|s: SegmentView| s.1)
}

/// Segment `i` sits at position `i`, for the first `n` segments.
pub open spec fn indexed_in_order(segs: Seq<SegmentView>, n: int) -> bool {
    forall|i: int| 0 <= i < n ==> segs[i].0 == i
}

/// The stored continuity values of the first `n` segments are the chain's.
pub open spec fn continuity_holds(segs: Seq<SegmentView>, n: int) -> bool {
    forall|i: int|
        0 <= i < n ==> segs[i].2 == continuity(stored_hashes(segs), (i + 1) as nat)
}

/// What chain validation answers for segments.
///
/// The first segment whose index differs from its position is reported as a
/// gap; otherwise the first segment whose stored continuity differs from
/// the chain's is reported as out of order, with both values in hex; a chain
/// with neither is accepted.
pub open spec fn chain_verdict(segs: Seq<SegmentView>, r: Result<(), ChainError>) -> bool {
    match r {
        Ok(()) => indexed_in_order(segs, segs.len() as int) && continuity_holds(
            segs,
            segs.len() as int,
        ),
        Err(ChainError::Gap(g)) => {
            &&& g < segs.len()
            &&& segs[g as int].0 != g
            &&& indexed_in_order(segs, g as int)
        },
        Err(ChainError::OutOfOrder { expected, found }) => {
            &&& indexed_in_order(segs, segs.len() as int)
            &&& exists|k: int|
                #![trigger segs[k]]
                0 <= k < segs.len() && continuity_holds(segs, k) && segs[k].2 != continuity(
                    stored_hashes(segs),
                    (k + 1) as nat,
                ) && expected@ == hex_text(continuity(stored_hashes(segs), (k + 1) as nat))
                    && found@ == hex_text(segs[k].2)
        },
        Err(ChainError::EndOfChainTruncated) => false,
    }
}

/// Validates the continuity chain of ordered segments; see [`chain_verdict`].
pub fn validate_chain(segments: &[ChainSegment]) -> (r: Result<(), ChainError>)
    ensures
        chain_verdict(segment_views(segments@), r),
{
    let ghost sv = segment_views(segments@);
    let n = segments.len();
    let mut i: usize = 0;
    while i < n
        invariant
            n == segments@.len(),
            sv == segment_views(segments@),
            i <= n,
            indexed_in_order(sv, i as int),
        decreases n - i,
    {
        if segments[i].index != i {
            return Err(ChainError::Gap(i));
        }
        i = i + 1;
    }
    let ghost hs = stored_hashes(sv);
    let mut expected = genesis();
    let mut k: usize = 0;
    while k < n
        invariant
            n == segments@.len(),
            sv == segment_views(segments@),
            k <= n,
            hs == stored_hashes(sv),
            indexed_in_order(sv, n as int),
            expected@ == continuity(hs, k as nat),
            continuity_holds(sv, k as int),
        decreases n - k,
    {
        expected = chain_next(&expected, &segments[k].stored_hash);
        assert(hs[k as int] == segments@[k as int].stored_hash@);
        if !bytes_equal(expected.as_slice(), segments[k].stored_continuity.as_slice()) {
            let e = hex_encode(expected.as_slice());
            let f = hex_encode(segments[k].stored_continuity.as_slice());
            assert(sv[k as int].2 == segments@[k as int].stored_continuity@);
            assert(0 <= k < sv.len() && continuity_holds(sv, k as int) && sv[k as int].2
                != continuity(stored_hashes(sv), (k + 1) as nat) && e@ == hex_text(
                continuity(stored_hashes(sv), (k + 1) as nat),
            ) && f@ == hex_text(sv[k as int].2));
            return Err(ChainError::OutOfOrder { expected: e, found: f });
        }
        k = k + 1;
    }
    Ok(())
}

/// The continuity after `k` hashes depends on those `k` hashes only.
proof fn lemma_continuity_prefix(h1: Seq<Seq<u8>>, h2: Seq<Seq<u8>>, k: nat)
    requires
        k <= h1.len(),
        k <= h2.len(),
        forall|i: int| 0 <= i < k ==> h1[i] == h2[i],
    ensures
        continuity(h1, k) == continuity(h2, k),
    decreases k,
{
    if k > 0 {
        lemma_continuity_prefix(h1, h2, (k - 1) as nat);
    }
}

/// Segments numbered by their position, whose stored continuity values are
/// the chain's over their stored hashes, are accepted: validation can answer
/// nothing but `Ok`.
pub proof fn law_built_chain_validates(segs: Seq<SegmentView>)
    requires
        indexed_in_order(segs, segs.len() as int),
        continuity_holds(segs, segs.len() as int),
    ensures
        forall|r: Result<(), ChainError>| chain_verdict(segs, r) ==> r is Ok,
{
    assert forall|r: Result<(), ChainError>| chain_verdict(segs, r) implies r is Ok by {
        match r {
            Err(ChainError::Gap(g)) => {
                assert(segs[g as int].0 == g);
            },
            Err(ChainError::OutOfOrder { expected, found }) => {
                let k = choose|k: int|
                    #![trigger segs[k]]
                    0 <= k < segs.len() && continuity_holds(segs, k) && segs[k].2 != continuity(
                        stored_hashes(segs),
                        (k + 1) as nat,
                    ) && expected@ == hex_text(continuity(stored_hashes(segs), (k + 1) as nat))
                        && found@ == hex_text(segs[k].2);
                assert(segs[k].2 == continuity(stored_hashes(segs), (k + 1) as nat));
            },
            _ => {},
        }
    }
}

/// Every prefix of an accepted chain is accepted: the chain binds each
/// segment to those before it, not to those after it.
pub proof fn law_chain_prefix_accepted(segs: Seq<SegmentView>, n: int)
    requires
        0 <= n <= segs.len(),
        chain_verdict(segs, Ok(())),
    ensures
        chain_verdict(segs.subrange(0, n), Ok(())),
{
    let sub = segs.subrange(0, n);
    let hs = stored_hashes(segs);
    let hsub = stored_hashes(sub);
    assert forall|i: int| 0 <= i < n implies #[trigger] sub[i].2 == continuity(hsub, (i + 1) as nat) by {
        assert(segs[i].2 == continuity(hs, (i + 1) as nat));
        lemma_continuity_prefix(hs, hsub, (i + 1) as nat);
    }
    assert forall|i: int| 0 <= i < n implies #[trigger] sub[i].0 == i by {
        assert(segs[i].0 == i);
    }
}

} // verus!
