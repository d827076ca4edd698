//! Camera manifest of a `.trst` archive: its structure, its validation and
//! the canonical bytes that its signature covers.
//!
//! Frame rates and durations are floating-point numbers in the manifest's
//! JSON form.  The library holds each of them as the text the number prints
//! as (Rust's shortest round-trip `{}` form, such as `30` or `29.97`), which is
//! exactly what goes into the canonical bytes; the application converts
//! between the two forms.

use crate::error::ManifestError;
use crate::primitives::{json_string, json_string_of, opt_text};
use crate::text::{decimal, decimal_between, push_decimal, str_eq};
use vstd::prelude::*;
use vstd::utf8::encode_utf8;

verus! {

/// The JSON string literals of `items`, separated by commas.
pub open spec fn json_items(items: Seq<Seq<char>>) -> Seq<char>
    decreases items.len(),
{
    if items.len() == 0 {
        Seq::empty()
    } else if items.len() == 1 {
        json_string_of(items[0])
    } else {
        json_items(items.drop_last()) + ","@ + json_string_of(items.last())
    }
}

/// The compact JSON array of a list of texts: `[`, their string literals
/// separated by commas, `]`.
fn json_string_list(items: &Vec<String>) -> (r: String)
    ensures
        r@ == "["@ + json_items(items@.map_values(|s: String| s@)) + "]"@,
{
    let ghost texts = items@.map_values(|s: String| s@);
    let mut out = String::from_str("[");
    let n = items.len();
    let mut i: usize = 0;
    while i < n
        invariant
            i <= n,
            n == items@.len(),
            texts == items@.map_values(|s: String| s@),
            out@ == "["@ + json_items(texts.subrange(0, i as int)),
        decreases n - i,
    {
        if i > 0 {
            out.append(",");
        }
        let lit = json_string(items[i].as_str());
        out.append(lit.as_str());
        proof {
            let pre = texts.subrange(0, i as int);
            let next = texts.subrange(0, i + 1);
            assert(next.drop_last() =~= pre);
            assert(next.last() == items@[i as int]@);
            if i == 0 {
                assert(pre =~= Seq::<Seq<char>>::empty());
            }
        }
        i = i + 1;
    }
    assert(texts.subrange(0, n as int) =~= texts);
    out.append("]");
    out
}

/// Identity of the capturing device.
#[derive(Debug, Clone)]
pub struct DeviceInfo {
    pub id: String,
    pub model: String,
    pub firmware_version: String,
    pub public_key: String,
}

/// When, where and how the footage was captured.
#[derive(Debug, Clone)]
pub struct CaptureInfo {
    pub started_at: String,
    pub ended_at: String,
    pub timezone: String,
    /// Frame rate, as the text the number prints as.
    pub fps: String,
    pub resolution: String,
    pub codec: String,
}

/// Nominal chunk size and duration.
#[derive(Debug, Clone)]
pub struct ChunkInfo {
    pub size_bytes: u64,
    /// Duration in seconds, as the text the number prints as.
    pub duration_seconds: String,
}

/// One segment: its chunk file and the two hashes that bind it.
#[derive(Debug, Clone)]
pub struct SegmentInfo {
    pub chunk_file: String,
    pub blake3_hash: String,
    pub start_time: String,
    /// Duration in seconds, as the text the number prints as.
    pub duration_seconds: String,
    pub continuity_hash: String,
}

/// The manifest of a camera archive.
#[derive(Debug, Clone)]
pub struct CamVideoManifest {
    pub trst_version: String,
    pub profile: String,
    pub device: DeviceInfo,
    pub capture: CaptureInfo,
    pub chunk: ChunkInfo,
    pub segments: Vec<SegmentInfo>,
    pub claims: Vec<String>,
    pub prev_archive_hash: Option<String>,
    pub signature: Option<String>,
}

/// The complaint about segment `i`, if one of its required fields is empty.
pub open spec fn segment_problem(s: SegmentInfo, i: nat) -> Option<Seq<char>> {
    if s.chunk_file@.len() == 0 {
        Some("segment["@ + decimal(i) + "].chunk_file cannot be empty"@)
    } else if s.blake3_hash@.len() == 0 {
        Some("segment["@ + decimal(i) + "].blake3_hash cannot be empty"@)
    } else if s.continuity_hash@.len() == 0 {
        Some("segment["@ + decimal(i) + "].continuity_hash cannot be empty"@)
    } else {
        None
    }
}

/// The complaint about the first faulty segment among the first `n`.
pub open spec fn segments_problem(segs: Seq<SegmentInfo>, n: nat) -> Option<Seq<char>>
    decreases n,
{
    if n == 0 {
        None
    } else {
        match segments_problem(segs, (n - 1) as nat) {
            Some(m) => Some(m),
            None => segment_problem(segs[n - 1], (n - 1) as nat),
        }
    }
}

/// The first complaint about a manifest, in the order the fields are checked,
/// or `None` when it is well formed.
pub open spec fn manifest_problem(m: CamVideoManifest) -> Option<Seq<char>> {
    if m.trst_version@.len() == 0 {
        Some("trst_version cannot be empty"@)
    } else if m.profile@ != "cam.video"@ {
        Some("profile must be 'cam.video'"@)
    } else if m.device.id@.len() == 0 {
        Some("device.id cannot be empty"@)
    } else if m.device.public_key@.len() == 0 {
        Some("device.public_key cannot be empty"@)
    } else if m.capture.started_at@.len() == 0 {
        Some("capture.started_at cannot be empty"@)
    } else if m.capture.ended_at@.len() == 0 {
        Some("capture.ended_at cannot be empty"@)
    } else if m.segments@.len() == 0 {
        Some("segments cannot be empty"@)
    } else {
        segments_problem(m.segments@, m.segments@.len())
    }
}

/// A complaint found among the first `k` segments is the complaint about the
/// first `n >= k`.
proof fn lemma_segments_problem_stable(segs: Seq<SegmentInfo>, k: nat, n: nat)
    requires
        k <= n,
        segments_problem(segs, k) is Some,
    ensures
        segments_problem(segs, n) == segments_problem(segs, k),
    decreases n - k,
{
    if k < n {
        lemma_segments_problem_stable(segs, k, (n - 1) as nat);
    }
}

fn invalid(msg: &str) -> (r: Result<(), ManifestError>)
    ensures
        r matches Err(ManifestError::InvalidField(s)) && s@ == msg@,
{
    Err(ManifestError::InvalidField(String::from_str(msg)))
}

impl CamVideoManifest {
    /// Checks the structure and the required fields of the manifest.
    ///
    /// Fails with the first complaint of [`manifest_problem`].
    pub fn validate(&self) -> (r: Result<(), ManifestError>)
        ensures
            match r {
                Ok(()) => manifest_problem(*self) is None,
                Err(ManifestError::InvalidField(msg)) => manifest_problem(*self) == Some(msg@),
                Err(ManifestError::Serialization(_)) => false,
            },
    {
        if self.trst_version.as_str().is_empty() {
            return invalid("trst_version cannot be empty");
        }
        if !str_eq(self.profile.as_str(), "cam.video") {
            return invalid("profile must be 'cam.video'");
        }
        if self.device.id.as_str().is_empty() {
            return invalid("device.id cannot be empty");
        }
        if self.device.public_key.as_str().is_empty() {
            return invalid("device.public_key cannot be empty");
        }
        if self.capture.started_at.as_str().is_empty() {
            return invalid("capture.started_at cannot be empty");
        }
        if self.capture.ended_at.as_str().is_empty() {
            return invalid("capture.ended_at cannot be empty");
        }
        if self.segments.len() == 0 {
            return invalid("segments cannot be empty");
        }
        let n = self.segments.len();
        let mut i: usize = 0;
        while i < n
            invariant
                n == self.segments@.len(),
                i <= n,
                segments_problem(self.segments@, i as nat) is None,
                manifest_problem(*self) == segments_problem(self.segments@, n as nat),
            decreases n - i,
        {
            let s = &self.segments[i];
            let ghost here = segment_problem(self.segments@[i as int], i as nat);
            proof {
                assert(segments_problem(self.segments@, (i + 1) as nat) == here);
                if here is Some {
                    lemma_segments_problem_stable(self.segments@, (i + 1) as nat, n as nat);
                }
            }
            if s.chunk_file.as_str().is_empty() {
                let m = decimal_between("segment[", i as u64, "].chunk_file cannot be empty");
                return Err(ManifestError::InvalidField(m));
            }
            if s.blake3_hash.as_str().is_empty() {
                let m = decimal_between("segment[", i as u64, "].blake3_hash cannot be empty");
                return Err(ManifestError::InvalidField(m));
            }
            if s.continuity_hash.as_str().is_empty() {
                let m = decimal_between("segment[", i as u64, "].continuity_hash cannot be empty");
                return Err(ManifestError::InvalidField(m));
            }
            i = i + 1;
        }
        Ok(())
    }
}

/// The JSON object of one segment, keys in their canonical order.
pub open spec fn segment_json(s: SegmentInfo) -> Seq<char> {
    "{\"chunk_file\":"@ + json_string_of(s.chunk_file@) + ",\"blake3_hash\":"@ + json_string_of(
        s.blake3_hash@,
    ) + ",\"start_time\":"@ + json_string_of(s.start_time@) + ",\"duration_seconds\":"@
        + s.duration_seconds@ + ",\"continuity_hash\":"@ + json_string_of(s.continuity_hash@) + "}"@
}

/// The JSON objects of the first `n` segments, separated by commas.
pub open spec fn segments_json(segs: Seq<SegmentInfo>, n: nat) -> Seq<char>
    decreases n,
{
    if n == 0 {
        Seq::empty()
    } else if n == 1 {
        segment_json(segs[0])
    } else {
        segments_json(segs, (n - 1) as nat) + ","@ + segment_json(segs[n - 1])
    }
}

/// The segment text of the first `n` segments depends on those alone.
proof fn lemma_segments_json_prefix(s: Seq<SegmentInfo>, t: Seq<SegmentInfo>, n: nat)
    requires
        n <= s.len(),
        n <= t.len(),
        forall|i: int| 0 <= i < n ==> s[i] == t[i],
    ensures
        segments_json(s, n) == segments_json(t, n),
    decreases n,
{
    if n > 1 {
        lemma_segments_json_prefix(s, t, (n - 1) as nat);
    }
}

/// The segments of a manifest are written as a JSON array's elements: one
/// segment is its object alone, and the text of two runs of segments put
/// together is the text of the first, a comma, and the text of the second.
pub proof fn law_segments_are_comma_separated(a: Seq<SegmentInfo>, b: Seq<SegmentInfo>)
    ensures
        a.len() == 1 ==> segments_json(a, 1) == segment_json(a[0]),
        a.len() > 0 && b.len() > 0 ==> segments_json(a + b, a.len() + b.len()) == segments_json(a, a.len())
            + ","@ + segments_json(b, b.len()),
    decreases b.len(),
{
    if a.len() > 0 && b.len() > 0 {
        let ab = a + b;
        let n = a.len() + b.len();
        lemma_segments_json_prefix(ab, a, a.len());
        if b.len() == 1 {
            assert(ab[n - 1] == b[0]);
            assert(segments_json(ab, n) == segments_json(ab, a.len()) + ","@ + segment_json(b[0]));
            assert(segments_json(b, 1) == segment_json(b[0]));
        } else {
            let b1 = b.drop_last();
            law_segments_are_comma_separated(a, b1);
            lemma_segments_json_prefix(ab, a + b1, (n - 1) as nat);
            lemma_segments_json_prefix(b, b1, (b.len() - 1) as nat);
            assert(ab[n - 1] == b[b.len() - 1]);
            assert(segments_json(ab, n) == segments_json(ab, (n - 1) as nat) + ","@ + segment_json(b[b.len() - 1]));
            assert(segments_json(b, b.len()) == segments_json(b, (b.len() - 1) as nat) + ","@ + segment_json(
                b[b.len() - 1],
            ));
            assert(segments_json(ab, n) =~= segments_json(a, a.len()) + ","@ + segments_json(b, b.len()));
        }
    }
}

/// The canonical JSON text of a manifest up to its segments.
pub open spec fn canonical_head(m: CamVideoManifest) -> Seq<char> {
    "{\"trst_version\":"@ + json_string_of(m.trst_version@) + ",\"profile\":"@ + json_string_of(m.profile@)
        + ",\"device\":{\"id\":"@ + json_string_of(m.device.id@) + ",\"model\":"@ + json_string_of(
        m.device.model@,
    ) + ",\"firmware_version\":"@ + json_string_of(m.device.firmware_version@) + ",\"public_key\":"@
        + json_string_of(m.device.public_key@) + "}"@ + ",\"capture\":{\"started_at\":"@ + json_string_of(
        m.capture.started_at@,
    ) + ",\"ended_at\":"@ + json_string_of(m.capture.ended_at@) + ",\"timezone\":"@ + json_string_of(
        m.capture.timezone@,
    ) + ",\"fps\":"@ + m.capture.fps@ + ",\"resolution\":"@ + json_string_of(m.capture.resolution@)
        + ",\"codec\":"@ + json_string_of(m.capture.codec@) + "}"@ + ",\"chunk\":{\"size_bytes\":"@
        + decimal(m.chunk.size_bytes as nat) + ",\"duration_seconds\":"@ + m.chunk.duration_seconds@ + "}"@
        + ",\"segments\":["@
}

/// The canonical JSON text of a manifest after its segments.
pub open spec fn canonical_tail(m: CamVideoManifest) -> Seq<char> {
    "]"@ + ",\"claims\":"@ + "["@ + json_items(m.claims@.map_values(|c: String| c@)) + "]"@ + match m.prev_archive_hash {
        Some(h) => ",\"prev_archive_hash\":"@ + json_string_of(h@),
        None => Seq::empty(),
    } + "}"@
}

/// The canonical JSON text of a manifest: every key in a fixed order, no
/// white space, and no signature.
pub open spec fn canonical_json(m: CamVideoManifest) -> Seq<char> {
    canonical_head(m) + segments_json(m.segments@, m.segments@.len()) + canonical_tail(m)
}

fn push_json(out: &mut String, key_prefix: &str, value: &str)
    ensures
        final(out)@ == old(out)@ + key_prefix@ + json_string_of(value@),
{
    out.append(key_prefix);
    out.append(json_string(value).as_str());
}

impl CamVideoManifest {
    /// A manifest with the reference camera's defaults: version `0.1.0`,
    /// profile `cam.video`, 30 fps, 1920x1080 raw, 1 MiB chunks of 2 s, and
    /// everything else empty.
    pub fn new() -> (r: CamVideoManifest)
        ensures
            r.trst_version@ == "0.1.0"@,
            r.profile@ == "cam.video"@,
            r.device.id@.len() == 0,
            r.device.model@ == "TrustEdgeRefCam"@,
            r.device.firmware_version@ == "1.0.0"@,
            r.device.public_key@.len() == 0,
            r.capture.started_at@.len() == 0,
            r.capture.ended_at@.len() == 0,
            r.capture.timezone@ == "UTC"@,
            r.capture.fps@ == "30"@,
            r.capture.resolution@ == "1920x1080"@,
            r.capture.codec@ == "raw"@,
            r.chunk.size_bytes == 1048576,
            r.chunk.duration_seconds@ == "2"@,
            r.segments@.len() == 0,
            r.claims@.len() == 0,
            r.prev_archive_hash is None,
            r.signature is None,
    {
        CamVideoManifest {
            trst_version: String::from_str("0.1.0"),
            profile: String::from_str("cam.video"),
            device: DeviceInfo {
                id: String::new(),
                model: String::from_str("TrustEdgeRefCam"),
                firmware_version: String::from_str("1.0.0"),
                public_key: String::new(),
            },
            capture: CaptureInfo {
                started_at: String::new(),
                ended_at: String::new(),
                timezone: String::from_str("UTC"),
                fps: String::from_str("30"),
                resolution: String::from_str("1920x1080"),
                codec: String::from_str("raw"),
            },
            chunk: ChunkInfo { size_bytes: 1048576, duration_seconds: String::from_str("2") },
            segments: Vec::new(),
            claims: Vec::new(),
            prev_archive_hash: None,
            signature: None,
        }
    }

    /// The canonical JSON text of the manifest; see [`canonical_json`].
    fn serialize_with_ordered_keys(&self) -> (r: String)
        ensures
            r@ == canonical_json(*self),
    {
        let mut out = String::new();
        push_json(&mut out, "{\"trst_version\":", self.trst_version.as_str());
        push_json(&mut out, ",\"profile\":", self.profile.as_str());
        push_json(&mut out, ",\"device\":{\"id\":", self.device.id.as_str());
        push_json(&mut out, ",\"model\":", self.device.model.as_str());
        push_json(&mut out, ",\"firmware_version\":", self.device.firmware_version.as_str());
        push_json(&mut out, ",\"public_key\":", self.device.public_key.as_str());
        out.append("}");
        push_json(&mut out, ",\"capture\":{\"started_at\":", self.capture.started_at.as_str());
        push_json(&mut out, ",\"ended_at\":", self.capture.ended_at.as_str());
        push_json(&mut out, ",\"timezone\":", self.capture.timezone.as_str());
        out.append(",\"fps\":");
        out.append(self.capture.fps.as_str());
        push_json(&mut out, ",\"resolution\":", self.capture.resolution.as_str());
        push_json(&mut out, ",\"codec\":", self.capture.codec.as_str());
        out.append("}");
        out.append(",\"chunk\":{\"size_bytes\":");
        push_decimal(&mut out, self.chunk.size_bytes);
        out.append(",\"duration_seconds\":");
        out.append(self.chunk.duration_seconds.as_str());
        out.append("}");
        out.append(",\"segments\":[");
        let ghost before = out@;
        assert(before =~= canonical_head(*self));
        let n = self.segments.len();
        let mut i: usize = 0;
        while i < n
            invariant
                i <= n,
                n == self.segments@.len(),
                out@ == before + segments_json(self.segments@, i as nat),
            decreases n - i,
        {
            let seg = &self.segments[i];
            if i > 0 {
                out.append(",");
            }
            push_json(&mut out, "{\"chunk_file\":", seg.chunk_file.as_str());
            push_json(&mut out, ",\"blake3_hash\":", seg.blake3_hash.as_str());
            push_json(&mut out, ",\"start_time\":", seg.start_time.as_str());
            out.append(",\"duration_seconds\":");
            out.append(seg.duration_seconds.as_str());
            push_json(&mut out, ",\"continuity_hash\":", seg.continuity_hash.as_str());
            out.append("}");
            proof {
                assert(segments_json(self.segments@, (i + 1) as nat) == if i == 0 {
                    segment_json(self.segments@[0])
                } else {
                    segments_json(self.segments@, i as nat) + ","@ + segment_json(self.segments@[i as int])
                });
                if i == 0 {
                    assert(segments_json(self.segments@, 0) =~= Seq::<char>::empty());
                }
                assert(out@ =~= before + segments_json(self.segments@, (i + 1) as nat));
            }
            i = i + 1;
        }
        let ghost middle = out@;
        out.append("]");
        out.append(",\"claims\":");
        out.append(json_string_list(&self.claims).as_str());
        match &self.prev_archive_hash {
            Some(h) => {
                push_json(&mut out, ",\"prev_archive_hash\":", h.as_str());
            },
            None => {},
        }
        out.append("}");
        proof {
            assert(out@ =~= middle + canonical_tail(*self));
        }
        out
    }

    /// The bytes the manifest's signature covers: the UTF-8 encoding of
    /// [`canonical_json`], which leaves the signature out.
    pub fn to_canonical_bytes(&self) -> (r: Result<Vec<u8>, ManifestError>)
        ensures
            r matches Ok(b) && b@ == encode_utf8(canonical_json(*self)),
    {
        let text = self.serialize_with_ordered_keys();
        let bytes = text.as_str().as_bytes();
        let mut out: Vec<u8> = Vec::new();
        crate::codec::push_all(&mut out, bytes);
        Ok(out)
    }

    /// Attaches a signature.
    pub fn set_signature(&mut self, signature: String)
        ensures
            opt_text(final(self).signature) == Some(signature@),
            canonical_json(*final(self)) == canonical_json(*old(self)),
            manifest_problem(*final(self)) == manifest_problem(*old(self)),
    {
        self.signature = Some(signature);
    }
}

/// Two manifests that differ at most in their signatures have the same
/// canonical bytes: the signature is never part of what it signs.
pub proof fn law_canonical_ignores_signature(a: CamVideoManifest, b: CamVideoManifest)
    requires
        a.trst_version == b.trst_version,
        a.profile == b.profile,
        a.device == b.device,
        a.capture == b.capture,
        a.chunk == b.chunk,
        a.segments == b.segments,
        a.claims == b.claims,
        a.prev_archive_hash == b.prev_archive_hash,
    ensures
        canonical_json(a) == canonical_json(b),
{
}

} // verus!
