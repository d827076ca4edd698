//! Rules of the `.trst` archive layout.
//!
//! An archive is a directory named `clip-` + the clip id + `.trst`; it holds
//! the manifest, its detached signature and one file per segment in the
//! chunk directory, named by the segment's position with five digits
//! (`00000.bin`, `00001.bin`, ...).  The checks that decide whether an
//! archive is consistent live here; reading and writing the files is the
//! application's part.

use crate::chain::{chain_verdict, segment_hash, segment_views, validate_chain, ChainSegment, SegmentView};
use crate::codec::read_array;
use crate::error::ArchiveError;
use crate::manifest::{manifest_problem, CamVideoManifest, SegmentInfo};
use crate::primitives::{blake3_of, hex_decode, hex_encode, utf8_lossy, utf8_lossy_of};
use crate::text::{
    concat_str, decimal, decimal_between, hex_bytes_of, hex_text, padded_decimal,
    push_decimal, push_padded_decimal, str_eq, str_with_decimal,
};
use vstd::prelude::*;
use vstd::string::*;
use vstd::utf8::{encode_utf8, is_ascii_chars, is_ascii_chars_encode_utf8};

verus! {

/// The directory name of the archive with the given id.
pub fn archive_dir_name(id: &str) -> (r: String)
    ensures
        r@ == "clip-"@ + id@ + ".trst"@,
{
    let mut r = String::from_str("clip-");
    r.append(id);
    r.append(".trst");
    r
}

/// Name of the chunk file of segment `i`: five-digit, zero-padded, `.bin`.
pub open spec fn chunk_file_name_of(i: nat) -> Seq<char> {
    padded_decimal(i, 5) + ".bin"@
}

/// The chunk file name of the segment at `index`.
pub fn chunk_file_name(index: usize) -> (r: String)
    ensures
        r@ == chunk_file_name_of(index as nat),
{
    let mut r = String::new();
    push_padded_decimal(&mut r, index as u64, 5);
    r.append(".bin");
    r
}

/// ASCII decimal digit.
pub open spec fn is_digit(c: u8) -> bool {
    48 <= c <= 57
}

/// Value of a string of ASCII decimal digits; `None` if any byte is not one.
pub open spec fn decimal_value(s: Seq<u8>) -> Option<nat>
    decreases s.len(),
{
    if s.len() == 0 {
        Some(0)
    } else {
        match decimal_value(s.drop_last()) {
            Some(v) => if is_digit(s.last()) {
                Some((v * 10 + (s.last() - 48)) as nat)
            } else {
                None
            },
            None => None,
        }
    }
}

/// `10^n`.
pub open spec fn pow10(n: nat) -> nat
    decreases n,
{
    if n == 0 {
        1
    } else {
        10 * pow10((n - 1) as nat)
    }
}

/// The bytes of `.bin`.
pub open spec fn bin_suffix() -> Seq<u8> {
    seq![46u8, 98u8, 105u8, 110u8]
}

/// Nine bytes ending in `.bin`.
pub open spec fn chunk_name_shape(b: Seq<u8>) -> bool {
    b.len() == 9 && b.subrange(5, 9) == bin_suffix()
}

/// Index written in the first five bytes of a chunk name: decimal digits,
/// after an optional `+` (as unsigned integer parsing accepts).
pub open spec fn chunk_name_index(b: Seq<u8>) -> Option<nat> {
    let d = b.subrange(0, 5);
    if d[0] == 43u8 {
        decimal_value(d.subrange(1, 5))
    } else {
        decimal_value(d)
    }
}

proof fn lemma_decimal_value_bound(s: Seq<u8>)
    requires
        decimal_value(s) is Some,
    ensures
        decimal_value(s)->0 < pow10(s.len()),
    decreases s.len(),
{
    if s.len() > 0 {
        lemma_decimal_value_bound(s.drop_last());
        let v = decimal_value(s.drop_last())->0;
        let p = pow10((s.len() - 1) as nat);
        let d = (s.last() - 48) as nat;
        assert(v * 10 + d < 10 * p) by (nonlinear_arith)
            requires
                v < p,
                d <= 9,
        ;
    }
}

proof fn lemma_decimal_value_prefix(s: Seq<u8>, k: int)
    requires
        0 <= k <= s.len(),
        decimal_value(s.subrange(0, k)) is None,
    ensures
        decimal_value(s) is None,
    decreases s.len(),
{
    if k == s.len() {
        assert(s.subrange(0, k) =~= s);
    } else {
        assert(s.drop_last().subrange(0, k) =~= s.subrange(0, k));
        lemma_decimal_value_prefix(s.drop_last(), k);
    }
}

/// Parses the segment index out of a chunk file name (`"00042.bin"` is 42).
pub fn parse_chunk_index(filename: &str) -> (r: Result<usize, ArchiveError>)
    ensures
        match r {
            Ok(v) => chunk_name_shape(encode_utf8(filename@)) && chunk_name_index(
                encode_utf8(filename@),
            ) == Some(v as nat),
            Err(ArchiveError::SchemaMismatch(m)) => if chunk_name_shape(encode_utf8(filename@)) {
                chunk_name_index(encode_utf8(filename@)) is None && m@
                    == "Invalid chunk index in filename: "@ + filename@
            } else {
                m@ == "Invalid chunk filename format: "@ + filename@
            },
            Err(_) => false,
        },
{
    let b = filename.as_bytes();
    if !(b.len() == 9 && b[5] == 46u8 && b[6] == 98u8 && b[7] == 105u8 && b[8] == 110u8) {
        proof {
            if b@.len() == 9 && b@.subrange(5, 9) == bin_suffix() {
                assert(b@[5] == b@.subrange(5, 9)[0]);
                assert(b@[8] == b@.subrange(5, 9)[3]);
            }
        }
        return Err(ArchiveError::SchemaMismatch(concat_str("Invalid chunk filename format: ", filename)));
    }
    assert(b@.subrange(5, 9) =~= bin_suffix());
    let start: usize = if b[0] == 43u8 {
        1
    } else {
        0
    };
    let ghost digits = b@.subrange(start as int, 5);
    assert(chunk_name_index(b@) == decimal_value(digits)) by {
        assert(b@.subrange(0, 5).subrange(1, 5) =~= b@.subrange(1, 5));
        assert(b@.subrange(0, 5)[0] == b@[0]);
    }
    let mut v: usize = 0;
    let mut j: usize = start;
    while j < 5
        invariant
            start <= j <= 5,
            start <= 1,
            b@.len() == 9,
            digits == b@.subrange(start as int, 5),
            b@ == encode_utf8(filename@),
            chunk_name_shape(b@),
            chunk_name_index(b@) == decimal_value(digits),
            decimal_value(b@.subrange(start as int, j as int)) == Some(v as nat),
            v < pow10((j - start) as nat),
        decreases 5 - j,
    {
        let c = b[j];
        let ghost upto = b@.subrange(start as int, (j + 1) as int);
        assert(upto.drop_last() =~= b@.subrange(start as int, j as int));
        assert(upto.last() == c);
        if c < 48u8 || c > 57u8 {
            proof {
                assert(digits.subrange(0, j + 1 - start) =~= upto);
                lemma_decimal_value_prefix(digits, j + 1 - start);
            }
            return Err(ArchiveError::SchemaMismatch(concat_str("Invalid chunk index in filename: ", filename)));
        }
        proof {
            reveal_with_fuel(pow10, 6);
            assert(pow10((j - start) as nat) <= 10000);
            assert(pow10((j + 1 - start) as nat) == 10 * pow10((j - start) as nat));
            let p = pow10((j - start) as nat);
            let d = (c - 48) as nat;
            assert(v * 10 + d < 10 * p) by (nonlinear_arith)
                requires
                    v < p,
                    d <= 9,
            ;
        }
        v = v * 10 + (c - 48u8) as usize;
        j = j + 1;
    }
    Ok(v)
}

/// Bytes of a sequence of ASCII characters.
spec fn ascii_bytes(cs: Seq<char>) -> Seq<u8> {
    cs.map_values(|c: char| c as u8)
}

proof fn lemma_padded_digits(n: nat, w: nat)
    requires
        1 <= w,
        n < pow10(w),
    ensures
        padded_decimal(n, w).len() == w,
        forall|i: int| 0 <= i < w ==> '0' <= #[trigger] padded_decimal(n, w)[i] <= '9',
        decimal_value(ascii_bytes(padded_decimal(n, w))) == Some(n),
    decreases w,
{
    if w == 1 {
        reveal_with_fuel(pow10, 2);
        let b = ascii_bytes(padded_decimal(n, w));
        assert(b.drop_last() =~= Seq::<u8>::empty());
        assert(b.last() == (48 + n) as u8);
        assert(decimal_value(b.drop_last()) == Some(0nat));
        assert(decimal_value(b) == Some(n));
    } else {
        let q = n / 10;
        let p = pow10((w - 1) as nat);
        assert(q < p) by (nonlinear_arith)
            requires
                n < 10 * p,
                q == n / 10,
        ;
        lemma_padded_digits(q, (w - 1) as nat);
        let pd = padded_decimal(q, (w - 1) as nat);
        let b = ascii_bytes(padded_decimal(n, w));
        assert(b.drop_last() =~= ascii_bytes(pd));
        assert(b.last() == (48 + n % 10) as u8);
        assert(q * 10 + n % 10 == n) by (nonlinear_arith)
            requires
                q == n / 10,
        ;
        assert(decimal_value(b.drop_last()) == Some(q));
        assert(is_digit(b.last()));
        assert(decimal_value(b) == Some(n));
    }
}

/// The name of segment `i`'s chunk file parses back to `i`, for every index
/// that five digits hold.
pub proof fn law_chunk_name_roundtrip(i: nat)
    requires
        i < 100000,
    ensures
        chunk_name_shape(encode_utf8(chunk_file_name_of(i))),
        chunk_name_index(encode_utf8(chunk_file_name_of(i))) == Some(i),
{
    reveal_strlit(".bin");
    reveal_with_fuel(pow10, 6);
    lemma_padded_digits(i, 5);
    let pd = padded_decimal(i, 5);
    let cs = chunk_file_name_of(i);
    assert(is_ascii_chars(cs));
    is_ascii_chars_encode_utf8(cs);
    let b = encode_utf8(cs);
    assert(b.subrange(0, 5) =~= ascii_bytes(pd));
    assert(b.subrange(5, 9) =~= bin_suffix());
    assert(b.subrange(0, 5)[0] != 43u8);
}

/// The chunk count must equal the manifest's segment count.
pub fn check_chunk_count(chunks: usize, segments: usize) -> (r: Result<(), ArchiveError>)
    ensures
        match r {
            Ok(()) => chunks == segments,
            Err(ArchiveError::SchemaMismatch(m)) => chunks != segments && m@ == "Chunk count mismatch: "@
                + decimal(chunks as nat) + " chunks provided, "@ + decimal(segments as nat)
                + " segments in manifest"@,
            Err(_) => false,
        },
{
    if chunks != segments {
        let mut m = decimal_between("Chunk count mismatch: ", chunks as u64, " chunks provided, ");
        push_decimal(&mut m, segments as u64);
        m.append(" segments in manifest");
        return Err(ArchiveError::SchemaMismatch(m));
    }
    Ok(())
}

/// A manifest that carries a signature must carry the detached one, read as
/// text (invalid UTF-8 replaced by U+FFFD).
pub fn check_signature_consistency(embedded: &Option<String>, detached: &[u8]) -> (r: Result<
    (),
    ArchiveError,
>)
    ensures
        match r {
            Ok(()) => embedded matches Some(e) ==> e@ == utf8_lossy_of(detached@),
            Err(ArchiveError::SignatureMismatch) => embedded matches Some(e) && e@ != utf8_lossy_of(
                detached@,
            ),
            Err(_) => false,
        },
{
    match embedded {
        Some(e) => {
            let d = utf8_lossy(detached);
            if !str_eq(e.as_str(), d.as_str()) {
                return Err(ArchiveError::SignatureMismatch);
            }
            Ok(())
        },
        None => Ok(()),
    }
}

/// The segment at `expected` must name its own chunk file.  A different
/// name is reported with the index it carries, or as malformed.
pub fn check_chunk_name(expected: usize, chunk_file: &str) -> (r: Result<(), ArchiveError>)
    ensures
        match r {
            Ok(()) => chunk_file@ == chunk_file_name_of(expected as nat),
            Err(ArchiveError::InvalidChunkIndex { expected: e, found }) => {
                &&& chunk_file@ != chunk_file_name_of(expected as nat)
                &&& e == expected
                &&& chunk_name_shape(encode_utf8(chunk_file@))
                &&& chunk_name_index(encode_utf8(chunk_file@)) == Some(found as nat)
            },
            Err(ArchiveError::SchemaMismatch(m)) => {
                &&& chunk_file@ != chunk_file_name_of(expected as nat)
                &&& if chunk_name_shape(encode_utf8(chunk_file@)) {
                    chunk_name_index(encode_utf8(chunk_file@)) is None && m@
                        == "Invalid chunk index in filename: "@ + chunk_file@
                } else {
                    m@ == "Invalid chunk filename format: "@ + chunk_file@
                }
            },
            Err(_) => false,
        },
{
    let name = chunk_file_name(expected);
    if str_eq(chunk_file, name.as_str()) {
        return Ok(());
    }
    match parse_chunk_index(chunk_file) {
        Ok(found) => Err(ArchiveError::InvalidChunkIndex { expected, found }),
        Err(e) => Err(e),
    }
}

/// Outcome of checking one segment against its chunk: the chain segment it
/// contributes, or the message of the failure.
pub open spec fn segment_check(seg: SegmentInfo, index: usize, chunk: Seq<u8>) -> Result<
    SegmentView,
    Seq<char>,
> {
    let computed = blake3_of(chunk);
    if seg.blake3_hash@ != hex_text(computed) {
        Err(
            "Chunk "@ + decimal(index as nat) + " hash mismatch: expected "@ + seg.blake3_hash@
                + ", computed "@ + hex_text(computed),
        )
    } else {
        match hex_bytes_of(encode_utf8(seg.continuity_hash@)) {
            None => Err("Invalid continuity hash format: "@ + seg.continuity_hash@),
            Some(c) => if c.len() != 32 {
                Err("Continuity hash must be 32 bytes, got "@ + decimal(c.len()))
            } else {
                Ok((index, computed, c))
            },
        }
    }
}

/// Checks the first `k` segments against their chunks, in order: the chain
/// segments they make, or the first failure.
pub open spec fn contents_check(
    segs: Seq<SegmentInfo>,
    chunks: Seq<(usize, Vec<u8>)>,
    k: nat,
) -> Result<Seq<SegmentView>, Seq<char>>
    decreases k,
{
    if k == 0 {
        Ok(Seq::empty())
    } else {
        match contents_check(segs, chunks, (k - 1) as nat) {
            Err(m) => Err(m),
            Ok(acc) => match segment_check(segs[k - 1], chunks[k - 1].0, chunks[k - 1].1@) {
                Err(m) => Err(m),
                Ok(v) => Ok(acc.push(v)),
            },
        }
    }
}

proof fn lemma_contents_err_stable(
    segs: Seq<SegmentInfo>,
    chunks: Seq<(usize, Vec<u8>)>,
    k: nat,
    n: nat,
)
    requires
        k <= n,
        contents_check(segs, chunks, k) is Err,
    ensures
        contents_check(segs, chunks, n) == contents_check(segs, chunks, k),
    decreases n - k,
{
    if k < n {
        lemma_contents_err_stable(segs, chunks, k, (n - 1) as nat);
    }
}

/// The number of segment and chunk pairs that are checked.
pub open spec fn pairs_checked(m: CamVideoManifest, chunks: Seq<(usize, Vec<u8>)>) -> nat {
    if m.segments@.len() <= chunks.len() {
        m.segments@.len()
    } else {
        chunks.len()
    }
}

/// Validates an archive's manifest and chunks: the manifest's fields, each
/// chunk against its segment's stored hash, the stored continuity values'
/// form, and finally the continuity chain.
pub fn validate_archive_contents(m: &CamVideoManifest, chunks: &[(usize, Vec<u8>)]) -> (r: Result<
    (),
    ArchiveError,
>)
    ensures
        match r {
            Ok(()) => {
                &&& manifest_problem(*m) is None
                &&& contents_check(m.segments@, chunks@, pairs_checked(*m, chunks@)) matches Ok(vs)
                    && chain_verdict(vs, Ok(()))
            },
            Err(ArchiveError::ValidationFailed(msg)) => match manifest_problem(*m) {
                Some(p) => msg@ == "Manifest validation failed: Invalid field value: "@ + p,
                None => contents_check(m.segments@, chunks@, pairs_checked(*m, chunks@)) == Err::<
                    Seq<SegmentView>,
                    Seq<char>,
                >(msg@),
            },
            Err(ArchiveError::Chain(e)) => {
                &&& manifest_problem(*m) is None
                &&& contents_check(m.segments@, chunks@, pairs_checked(*m, chunks@)) matches Ok(vs)
                    && chain_verdict(vs, Err(e))
            },
            Err(_) => false,
        },
{
    match m.validate() {
        Ok(()) => {},
        Err(crate::error::ManifestError::InvalidField(p)) => {
            let mut msg = String::from_str("Manifest validation failed: Invalid field value: ");
            msg.append(p.as_str());
            return Err(ArchiveError::ValidationFailed(msg));
        },
        Err(crate::error::ManifestError::Serialization(_)) => {
            return Err(ArchiveError::ValidationFailed(String::from_str("Manifest validation failed")));
        },
    }
    let n = if m.segments.len() <= chunks.len() {
        m.segments.len()
    } else {
        chunks.len()
    };
    let ghost segs = m.segments@;
    let mut out: Vec<ChainSegment> = Vec::new();
    let mut k: usize = 0;
    assert(segment_views(out@) =~= Seq::<SegmentView>::empty());
    while k < n
        invariant
            k <= n,
            manifest_problem(*m) is None,
            segs == m.segments@,
            n == pairs_checked(*m, chunks@),
            n <= segs.len(),
            n <= chunks@.len(),
            contents_check(segs, chunks@, k as nat) == Ok::<Seq<SegmentView>, Seq<char>>(
                segment_views(out@),
            ),
        decreases n - k,
    {
        let seg = &m.segments[k];
        let pair = &chunks[k];
        let index = pair.0;
        let ghost before = segment_views(out@);
        let computed = segment_hash(pair.1.as_slice());
        let hx = hex_encode(computed.as_slice());
        if !str_eq(seg.blake3_hash.as_str(), hx.as_str()) {
            let mut msg = decimal_between("Chunk ", index as u64, " hash mismatch: expected ");
            msg.append(seg.blake3_hash.as_str());
            msg.append(", computed ");
            msg.append(hx.as_str());
            proof {
                lemma_contents_err_stable(segs, chunks@, (k + 1) as nat, n as nat);
            }
            return Err(ArchiveError::ValidationFailed(msg));
        }
        let decoded = hex_decode(seg.continuity_hash.as_str().as_bytes());
        match decoded {
            Err(_) => {
                let msg = concat_str("Invalid continuity hash format: ", seg.continuity_hash.as_str());
                proof {
                    lemma_contents_err_stable(segs, chunks@, (k + 1) as nat, n as nat);
                }
                return Err(ArchiveError::ValidationFailed(msg));
            },
            Ok(c) => {
                if c.len() != 32 {
                    let msg = str_with_decimal("Continuity hash must be 32 bytes, got ", c.len() as u64);
                    proof {
                        lemma_contents_err_stable(segs, chunks@, (k + 1) as nat, n as nat);
                    }
                    return Err(ArchiveError::ValidationFailed(msg));
                }
                let continuity: [u8; 32] = read_array::<32>(c.as_slice(), 0);
                assert(c@.subrange(0, 32) =~= c@);
                out.push(ChainSegment { index, stored_hash: computed, stored_continuity: continuity });
                assert(segment_views(out@) =~= before.push((index, computed@, c@)));
            },
        }
        k = k + 1;
    }
    match validate_chain(out.as_slice()) {
        Ok(()) => Ok(()),
        Err(e) => Err(ArchiveError::Chain(e)),
    }
}

} // verus!
