//! Fixed-width integer encodings (big and little endian) and byte-array
//! helpers shared by the wire formats of this crate.

use vstd::prelude::*;

verus! {

/// Big-endian bytes of a 32-bit value.
pub open spec fn be32(x: u32) -> Seq<u8> {
    seq![(x >> 24u32) as u8, (x >> 16u32) as u8, (x >> 8u32) as u8, x as u8]
}

/// Value of four big-endian bytes.
pub open spec fn be32_value(s: Seq<u8>) -> u32 {
    ((s[0] as u32) << 24u32) | ((s[1] as u32) << 16u32) | ((s[2] as u32) << 8u32) | (s[3] as u32)
}

/// Big-endian bytes of a 64-bit value.
pub open spec fn be64(x: u64) -> Seq<u8> {
    seq![
        (x >> 56u64) as u8,
        (x >> 48u64) as u8,
        (x >> 40u64) as u8,
        (x >> 32u64) as u8,
        (x >> 24u64) as u8,
        (x >> 16u64) as u8,
        (x >> 8u64) as u8,
        x as u8,
    ]
}

/// Little-endian bytes of a 32-bit value.
pub open spec fn le32(x: u32) -> Seq<u8> {
    seq![x as u8, (x >> 8u32) as u8, (x >> 16u32) as u8, (x >> 24u32) as u8]
}

/// Value of four little-endian bytes.
pub open spec fn le32_value(s: Seq<u8>) -> u32 {
    (s[0] as u32) | ((s[1] as u32) << 8u32) | ((s[2] as u32) << 16u32) | ((s[3] as u32) << 24u32)
}

/// Little-endian bytes of a 64-bit value.
pub open spec fn le64(x: u64) -> Seq<u8> {
    seq![
        x as u8,
        (x >> 8u64) as u8,
        (x >> 16u64) as u8,
        (x >> 24u64) as u8,
        (x >> 32u64) as u8,
        (x >> 40u64) as u8,
        (x >> 48u64) as u8,
        (x >> 56u64) as u8,
    ]
}

/// Value of eight little-endian bytes.
pub open spec fn le64_value(s: Seq<u8>) -> u64 {
    (s[0] as u64) | ((s[1] as u64) << 8u64) | ((s[2] as u64) << 16u64) | ((s[3] as u64) << 24u64)
        | ((s[4] as u64) << 32u64) | ((s[5] as u64) << 40u64) | ((s[6] as u64) << 48u64) | ((
    s[7] as u64) << 56u64)
}

pub proof fn lemma_be32_roundtrip(x: u32)
    ensures
        be32(x).len() == 4,
        be32_value(be32(x)) == x,
{
    let b0 = (x >> 24u32) as u8;
    let b1 = (x >> 16u32) as u8;
    let b2 = (x >> 8u32) as u8;
    let b3 = x as u8;
    assert(((b0 as u32) << 24u32) | ((b1 as u32) << 16u32) | ((b2 as u32) << 8u32) | (b3 as u32)
        == x) by (bit_vector)
        requires
            b0 == (x >> 24u32) as u8,
            b1 == (x >> 16u32) as u8,
            b2 == (x >> 8u32) as u8,
            b3 == x as u8,
    ;
}

pub proof fn lemma_le32_roundtrip(x: u32)
    ensures
        le32(x).len() == 4,
        le32_value(le32(x)) == x,
{
    let b0 = x as u8;
    let b1 = (x >> 8u32) as u8;
    let b2 = (x >> 16u32) as u8;
    let b3 = (x >> 24u32) as u8;
    assert((b0 as u32) | ((b1 as u32) << 8u32) | ((b2 as u32) << 16u32) | ((b3 as u32) << 24u32)
        == x) by (bit_vector)
        requires
            b0 == x as u8,
            b1 == (x >> 8u32) as u8,
            b2 == (x >> 16u32) as u8,
            b3 == (x >> 24u32) as u8,
    ;
}

pub proof fn lemma_le64_roundtrip(x: u64)
    ensures
        le64(x).len() == 8,
        le64_value(le64(x)) == x,
{
    let b0 = x as u8;
    let b1 = (x >> 8u64) as u8;
    let b2 = (x >> 16u64) as u8;
    let b3 = (x >> 24u64) as u8;
    let b4 = (x >> 32u64) as u8;
    let b5 = (x >> 40u64) as u8;
    let b6 = (x >> 48u64) as u8;
    let b7 = (x >> 56u64) as u8;
    assert((b0 as u64) | ((b1 as u64) << 8u64) | ((b2 as u64) << 16u64) | ((b3 as u64) << 24u64)
        | ((b4 as u64) << 32u64) | ((b5 as u64) << 40u64) | ((b6 as u64) << 48u64) | ((b7 as u64)
        << 56u64) == x) by (bit_vector)
        requires
            b0 == x as u8,
            b1 == (x >> 8u64) as u8,
            b2 == (x >> 16u64) as u8,
            b3 == (x >> 24u64) as u8,
            b4 == (x >> 32u64) as u8,
            b5 == (x >> 40u64) as u8,
            b6 == (x >> 48u64) as u8,
            b7 == (x >> 56u64) as u8,
    ;
}

pub fn u32_to_be(x: u32) -> (r: [u8; 4])
    ensures
        r@ == be32(x),
{
    let r = [(x >> 24u32) as u8, (x >> 16u32) as u8, (x >> 8u32) as u8, x as u8];
    assert(r@ =~= be32(x));
    r
}

pub fn u32_from_be(b0: u8, b1: u8, b2: u8, b3: u8) -> (r: u32)
    ensures
        r == be32_value(seq![b0, b1, b2, b3]),
{
    ((b0 as u32) << 24u32) | ((b1 as u32) << 16u32) | ((b2 as u32) << 8u32) | (b3 as u32)
}

pub fn u64_to_be(x: u64) -> (r: [u8; 8])
    ensures
        r@ == be64(x),
{
    let r = [
        (x >> 56u64) as u8,
        (x >> 48u64) as u8,
        (x >> 40u64) as u8,
        (x >> 32u64) as u8,
        (x >> 24u64) as u8,
        (x >> 16u64) as u8,
        (x >> 8u64) as u8,
        x as u8,
    ];
    assert(r@ =~= be64(x));
    r
}

/// Overwrites `out[off .. off + src.len()]` with `src`.
pub fn write_at<const N: usize>(out: &mut [u8; N], off: usize, src: &[u8])
    requires
        off + src@.len() <= N,
    ensures
        final(out)@ == old(out)@.subrange(0, off as int) + src@ + old(out)@.subrange(
            off + src@.len(),
            N as int,
        ),
{
    let ghost orig = out@;
    let mut i: usize = 0;
    while i < src.len()
        invariant
            i <= src@.len(),
            off + src@.len() <= N,
            out@.len() == N,
            orig.len() == N,
            forall|j: int| 0 <= j < off ==> out@[j] == orig[j],
            forall|j: int| off + src@.len() <= j < N ==> out@[j] == orig[j],
            forall|j: int| 0 <= j < i ==> out@[off + j] == src@[j],
            forall|j: int| off + i <= j < off + src@.len() ==> out@[j] == orig[j],
        decreases src@.len() - i,
    {
        out[off + i] = src[i];
        i = i + 1;
    }
    assert(out@ =~= orig.subrange(0, off as int) + src@ + orig.subrange(
        off + src@.len(),
        N as int,
    ));
}

/// Copies `src[off .. off + M]` into a fresh array.
pub fn read_array<const M: usize>(src: &[u8], off: usize) -> (r: [u8; M])
    requires
        off + M <= src@.len(),
    ensures
        r@ == src@.subrange(off as int, off + M),
{
    let mut r = [0u8; M];
    let len = src.len();
    let mut i: usize = 0;
    while i < M
        invariant
            i <= M,
            len == src@.len(),
            off + M <= src@.len(),
            r@.len() == M,
            forall|j: int| 0 <= j < i ==> r@[j] == src@[off + j],
        decreases M - i,
    {
        r[i] = src[off + i];
        i = i + 1;
    }
    assert(r@ =~= src@.subrange(off as int, off + M));
    r
}

/// Whether `b` begins with `prefix`.
pub fn starts_with(b: &[u8], prefix: &[u8]) -> (r: bool)
    ensures
        r == (b@.len() >= prefix@.len() && b@.subrange(0, prefix@.len() as int) == prefix@),
{
    if b.len() < prefix.len() {
        return false;
    }
    let mut i: usize = 0;
    while i < prefix.len()
        invariant
            i <= prefix@.len(),
            prefix@.len() <= b@.len(),
            forall|j: int| 0 <= j < i ==> b@[j] == prefix@[j],
        decreases prefix@.len() - i,
    {
        if b[i] != prefix[i] {
            assert(b@.subrange(0, prefix@.len() as int)[i as int] != prefix@[i as int]);
            return false;
        }
        i = i + 1;
    }
    assert(b@.subrange(0, prefix@.len() as int) =~= prefix@);
    true
}

/// The bytes of `b` from `from` on.
pub fn tail_from(b: &[u8], from: usize) -> (r: Vec<u8>)
    requires
        from <= b@.len(),
    ensures
        r@ == b@.subrange(from as int, b@.len() as int),
{
    slice_to_vec(b, from, b.len() - from)
}

/// Position of the first byte `c` at or after `from`, or the length.
pub open spec fn find_byte(b: Seq<u8>, from: int, c: u8) -> int
    decreases b.len() - from,
{
    if from < 0 || from >= b.len() {
        b.len() as int
    } else if b[from] == c {
        from
    } else {
        find_byte(b, from + 1, c)
    }
}

/// The first `c` at or after `from` is at `k` when none lies in between.
pub proof fn lemma_find_byte_at(b: Seq<u8>, from: int, k: int, c: u8)
    requires
        0 <= from <= k < b.len(),
        b[k] == c,
        forall|j: int| from <= j < k ==> b[j] != c,
    ensures
        find_byte(b, from, c) == k,
    decreases k - from,
{
    if from < k {
        lemma_find_byte_at(b, from + 1, k, c);
    }
}

/// Finds the first byte `c` at or after `from`; the length if there is none.
pub fn find_byte_from(b: &[u8], from: usize, c: u8) -> (r: usize)
    requires
        from <= b@.len(),
    ensures
        r == find_byte(b@, from as int, c),
        from <= r <= b@.len(),
    decreases b@.len() - from,
{
    if from >= b.len() {
        b.len()
    } else if b[from] == c {
        from
    } else {
        find_byte_from(b, from + 1, c)
    }
}

/// Appends all of `src` to `v`.
pub fn push_all(v: &mut Vec<u8>, src: &[u8])
    ensures
        final(v)@ == old(v)@ + src@,
{
    let ghost orig = v@;
    let mut i: usize = 0;
    while i < src.len()
        invariant
            i <= src@.len(),
            v@ == orig + src@.subrange(0, i as int),
        decreases src@.len() - i,
    {
        v.push(src[i]);
        i = i + 1;
        assert(v@ =~= orig + src@.subrange(0, i as int));
    }
    assert(src@.subrange(0, src@.len() as int) =~= src@);
}

pub proof fn lemma_be32_value_bytes(s: Seq<u8>)
    requires
        s.len() == 4,
    ensures
        be32(be32_value(s)) == s,
{
    let b0 = s[0];
    let b1 = s[1];
    let b2 = s[2];
    let b3 = s[3];
    let x = be32_value(s);
    assert(x == ((b0 as u32) << 24u32) | ((b1 as u32) << 16u32) | ((b2 as u32) << 8u32) | (
    b3 as u32));
    assert((x >> 24u32) as u8 == b0 && (x >> 16u32) as u8 == b1 && (x >> 8u32) as u8 == b2 && x as u8
        == b3) by (bit_vector)
        requires
            x == ((b0 as u32) << 24u32) | ((b1 as u32) << 16u32) | ((b2 as u32) << 8u32) | (
            b3 as u32),
    ;
    assert(be32(x) =~= s);
}

// ---------------------------------------------------------------------------
// Length-prefixed binary records.  Integers are little-endian, byte strings
// carry a 64-bit little-endian length prefix and fixed arrays are written
// as they are.
// ---------------------------------------------------------------------------

/// A byte string with its 64-bit little-endian length prefix.
#[verifier::opaque]
pub open spec fn framed(v: Seq<u8>) -> Seq<u8> {
    le64(v.len() as u64) + v
}

pub proof fn lemma_framed_len(v: Seq<u8>)
    ensures
        framed(v).len() == 8 + v.len(),
{
    reveal(framed);
}

/// Reads a little-endian `u64` at `pos`.
pub open spec fn spec_take_u64(input: Seq<u8>, pos: int) -> Option<(u64, int)> {
    if 0 <= pos && pos + 8 <= input.len() {
        Some((le64_value(input.subrange(pos, pos + 8)), pos + 8))
    } else {
        None
    }
}

/// Reads a little-endian `u32` at `pos`.
pub open spec fn spec_take_u32(input: Seq<u8>, pos: int) -> Option<(u32, int)> {
    if 0 <= pos && pos + 4 <= input.len() {
        Some((le32_value(input.subrange(pos, pos + 4)), pos + 4))
    } else {
        None
    }
}

/// Reads `n` raw bytes at `pos`.
pub open spec fn spec_take_raw(input: Seq<u8>, pos: int, n: int) -> Option<(Seq<u8>, int)> {
    if 0 <= pos && 0 <= n && pos + n <= input.len() {
        Some((input.subrange(pos, pos + n), pos + n))
    } else {
        None
    }
}

/// Reads a length-prefixed byte string at `pos`.
pub open spec fn spec_take_framed(input: Seq<u8>, pos: int) -> Option<(Seq<u8>, int)> {
    match spec_take_u64(input, pos) {
        Some((n, p)) => spec_take_raw(input, p, n as int),
        None => None,
    }
}

pub fn put_u64_le(out: &mut Vec<u8>, x: u64)
    ensures
        final(out)@ == old(out)@ + le64(x),
{
    out.push(x as u8);
    out.push((x >> 8u64) as u8);
    out.push((x >> 16u64) as u8);
    out.push((x >> 24u64) as u8);
    out.push((x >> 32u64) as u8);
    out.push((x >> 40u64) as u8);
    out.push((x >> 48u64) as u8);
    out.push((x >> 56u64) as u8);
    assert(out@ =~= old(out)@ + le64(x));
}

pub fn put_u32_le(out: &mut Vec<u8>, x: u32)
    ensures
        final(out)@ == old(out)@ + le32(x),
{
    out.push(x as u8);
    out.push((x >> 8u32) as u8);
    out.push((x >> 16u32) as u8);
    out.push((x >> 24u32) as u8);
    assert(out@ =~= old(out)@ + le32(x));
}

/// Appends a length-prefixed byte string.
pub fn put_framed(out: &mut Vec<u8>, v: &[u8])
    ensures
        final(out)@ == old(out)@ + framed(v@),
{
    let n = v.len();
    put_u64_le(out, n as u64);
    push_all(out, v);
    reveal(framed);
    assert(out@ =~= old(out)@ + framed(v@));
}

pub fn take_u64(input: &[u8], pos: usize) -> (r: Option<(u64, usize)>)
    ensures
        match r {
            Some((x, p)) => spec_take_u64(input@, pos as int) == Some((x, p as int)),
            None => spec_take_u64(input@, pos as int) is None,
        },
{
    let len = input.len();
    if pos > len || len - pos < 8 {
        return None;
    }
    let x = (input[pos] as u64) | ((input[pos + 1] as u64) << 8u64) | ((input[pos + 2] as u64)
        << 16u64) | ((input[pos + 3] as u64) << 24u64) | ((input[pos + 4] as u64) << 32u64) | ((
    input[pos + 5] as u64) << 40u64) | ((input[pos + 6] as u64) << 48u64) | ((input[pos
        + 7] as u64) << 56u64);
    let ghost sub = input@.subrange(pos as int, pos + 8);
    assert(sub[0] == input@[pos as int] && sub[1] == input@[pos + 1] && sub[2] == input@[pos + 2]
        && sub[3] == input@[pos + 3] && sub[4] == input@[pos + 4] && sub[5] == input@[pos + 5]
        && sub[6] == input@[pos + 6] && sub[7] == input@[pos + 7]);
    Some((x, pos + 8))
}

pub fn take_u32(input: &[u8], pos: usize) -> (r: Option<(u32, usize)>)
    ensures
        match r {
            Some((x, p)) => spec_take_u32(input@, pos as int) == Some((x, p as int)),
            None => spec_take_u32(input@, pos as int) is None,
        },
{
    let len = input.len();
    if pos > len || len - pos < 4 {
        return None;
    }
    let x = (input[pos] as u32) | ((input[pos + 1] as u32) << 8u32) | ((input[pos + 2] as u32)
        << 16u32) | ((input[pos + 3] as u32) << 24u32);
    let ghost sub = input@.subrange(pos as int, pos + 4);
    assert(sub[0] == input@[pos as int] && sub[1] == input@[pos + 1] && sub[2] == input@[pos + 2]
        && sub[3] == input@[pos + 3]);
    Some((x, pos + 4))
}

/// Copies `input[pos .. pos + n]`.
pub fn slice_to_vec(input: &[u8], pos: usize, n: usize) -> (r: Vec<u8>)
    requires
        pos + n <= input@.len(),
    ensures
        r@ == input@.subrange(pos as int, pos + n),
{
    let mut r: Vec<u8> = Vec::new();
    let len = input.len();
    let mut i: usize = 0;
    while i < n
        invariant
            i <= n,
            len == input@.len(),
            pos + n <= input@.len(),
            r@ == input@.subrange(pos as int, pos + i),
        decreases n - i,
    {
        r.push(input[pos + i]);
        i = i + 1;
        assert(r@ =~= input@.subrange(pos as int, pos + i));
    }
    r
}

pub fn take_raw(input: &[u8], pos: usize, n: usize) -> (r: Option<(Vec<u8>, usize)>)
    ensures
        match r {
            Some((v, p)) => spec_take_raw(input@, pos as int, n as int) == Some((v@, p as int)),
            None => spec_take_raw(input@, pos as int, n as int) is None,
        },
{
    let len = input.len();
    if pos > len || len - pos < n {
        return None;
    }
    let v = slice_to_vec(input, pos, n);
    Some((v, pos + n))
}

pub fn take_framed(input: &[u8], pos: usize) -> (r: Option<(Vec<u8>, usize)>)
    ensures
        match r {
            Some((v, p)) => spec_take_framed(input@, pos as int) == Some((v@, p as int)),
            None => spec_take_framed(input@, pos as int) is None,
        },
{
    match take_u64(input, pos) {
        None => None,
        Some((n, p)) => {
            let len = input.len();
            if n > (len - p) as u64 {
                return None;
            }
            take_raw(input, p, n as usize)
        },
    }
}

/// Reading a length-prefixed byte string back where it was written yields
/// the string and the position just after it.
pub proof fn lemma_take_framed(prefix: Seq<u8>, v: Seq<u8>, rest: Seq<u8>)
    requires
        v.len() <= u64::MAX,
    ensures
        spec_take_framed(prefix + framed(v) + rest, prefix.len() as int) == Some(
            (v, prefix.len() + 8 + v.len() as int),
        ),
        framed(v).len() == 8 + v.len(),
{
    reveal(framed);
    let input = prefix + framed(v) + rest;
    let p = prefix.len() as int;
    lemma_le64_roundtrip(v.len() as u64);
    assert(input.subrange(p, p + 8) =~= le64(v.len() as u64));
    assert(input.subrange(p + 8, p + 8 + v.len()) =~= v);
}

pub proof fn lemma_take_u64(prefix: Seq<u8>, x: u64, rest: Seq<u8>)
    ensures
        spec_take_u64(prefix + le64(x) + rest, prefix.len() as int) == Some(
            (x, prefix.len() + 8int),
        ),
{
    let input = prefix + le64(x) + rest;
    let p = prefix.len() as int;
    lemma_le64_roundtrip(x);
    assert(input.subrange(p, p + 8) =~= le64(x));
}

pub proof fn lemma_take_u32(prefix: Seq<u8>, x: u32, rest: Seq<u8>)
    ensures
        spec_take_u32(prefix + le32(x) + rest, prefix.len() as int) == Some(
            (x, prefix.len() + 4int),
        ),
{
    let input = prefix + le32(x) + rest;
    let p = prefix.len() as int;
    lemma_le32_roundtrip(x);
    assert(input.subrange(p, p + 4) =~= le32(x));
}

pub proof fn lemma_take_raw(prefix: Seq<u8>, v: Seq<u8>, rest: Seq<u8>)
    ensures
        spec_take_raw(prefix + v + rest, prefix.len() as int, v.len() as int) == Some(
            (v, prefix.len() as int + v.len()),
        ),
{
    let input = prefix + v + rest;
    let p = prefix.len() as int;
    assert(input.subrange(p, p + v.len()) =~= v);
}

/// Little-endian bytes of a 16-bit value.
pub open spec fn le16(x: u16) -> Seq<u8> {
    seq![x as u8, (x >> 8u16) as u8]
}

/// Value of two little-endian bytes.
pub open spec fn le16_value(s: Seq<u8>) -> u16 {
    (s[0] as u16) | ((s[1] as u16) << 8u16)
}

pub proof fn lemma_le16_roundtrip(x: u16)
    ensures
        le16(x).len() == 2,
        le16_value(le16(x)) == x,
{
    let b0 = x as u8;
    let b1 = (x >> 8u16) as u8;
    assert((b0 as u16) | ((b1 as u16) << 8u16) == x) by (bit_vector)
        requires
            b0 == x as u8,
            b1 == (x >> 8u16) as u8,
    ;
}

/// Reads a little-endian `u16` at `pos`.
pub open spec fn spec_take_u16(input: Seq<u8>, pos: int) -> Option<(u16, int)> {
    if 0 <= pos && pos + 2 <= input.len() {
        Some((le16_value(input.subrange(pos, pos + 2)), pos + 2))
    } else {
        None
    }
}

/// Reads one byte at `pos`.
pub open spec fn spec_take_u8(input: Seq<u8>, pos: int) -> Option<(u8, int)> {
    if 0 <= pos && pos < input.len() {
        Some((input[pos], pos + 1))
    } else {
        None
    }
}

pub fn put_u16_le(out: &mut Vec<u8>, x: u16)
    ensures
        final(out)@ == old(out)@ + le16(x),
{
    out.push(x as u8);
    out.push((x >> 8u16) as u8);
    assert(out@ =~= old(out)@ + le16(x));
}

pub fn take_u16(input: &[u8], pos: usize) -> (r: Option<(u16, usize)>)
    ensures
        match r {
            Some((x, p)) => spec_take_u16(input@, pos as int) == Some((x, p as int)),
            None => spec_take_u16(input@, pos as int) is None,
        },
{
    let len = input.len();
    if pos > len || len - pos < 2 {
        return None;
    }
    let x = (input[pos] as u16) | ((input[pos + 1] as u16) << 8u16);
    let ghost sub = input@.subrange(pos as int, pos + 2);
    assert(sub[0] == input@[pos as int] && sub[1] == input@[pos + 1]);
    Some((x, pos + 2))
}

pub fn take_u8(input: &[u8], pos: usize) -> (r: Option<(u8, usize)>)
    ensures
        match r {
            Some((x, p)) => spec_take_u8(input@, pos as int) == Some((x, p as int)),
            None => spec_take_u8(input@, pos as int) is None,
        },
{
    if pos >= input.len() {
        return None;
    }
    Some((input[pos], pos + 1))
}

pub proof fn lemma_take_u16(prefix: Seq<u8>, x: u16, rest: Seq<u8>)
    ensures
        spec_take_u16(prefix + le16(x) + rest, prefix.len() as int) == Some(
            (x, prefix.len() + 2int),
        ),
{
    let input = prefix + le16(x) + rest;
    let p = prefix.len() as int;
    lemma_le16_roundtrip(x);
    assert(input.subrange(p, p + 2) =~= le16(x));
}

pub proof fn lemma_take_u8(prefix: Seq<u8>, x: u8, rest: Seq<u8>)
    ensures
        spec_take_u8(prefix + seq![x] + rest, prefix.len() as int) == Some((x, prefix.len() + 1int)),
{
    let input = prefix + seq![x] + rest;
    assert(input[prefix.len() as int] == x);
}

} // verus!
