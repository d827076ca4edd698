//! The manifest of one chunk of a stream and its binary encoding.
//!
//! The encoding is the one the stream's peers exchange: integers are
//! little-endian and fixed-width, byte arrays are written as they are,
//! strings and lists carry a 64-bit length, an optional value a one-byte
//! tag, an enum variant a 32-bit index, and a boolean one byte (0 or 1).

use crate::codec::{
    framed, lemma_framed_len, lemma_take_framed, lemma_take_raw, lemma_take_u16, lemma_take_u32,
    lemma_take_u64, lemma_take_u8, le16, le32, le64, put_framed, put_u16_le, put_u32_le, put_u64_le,
    push_all, spec_take_framed, spec_take_raw, spec_take_u16, spec_take_u32, spec_take_u64,
    spec_take_u8, take_framed, take_raw, take_u16, take_u32, take_u64, take_u8,
};
use crate::format::AudioFormat;
use crate::primitives::string_from_utf8;
use vstd::prelude::*;
use vstd::utf8::{decode_utf8, encode_utf8, valid_utf8};

verus! {

broadcast use {vstd::utf8::encode_utf8_valid_utf8, vstd::utf8::encode_utf8_decode_utf8};

/// What kind of data a stream carries.
#[derive(Debug, Clone, PartialEq, Eq)]
pub enum DataType {
    /// Unknown or unspecified.
    Unknown,
    /// File data, with its MIME type when known.
    File { mime_type: Option<String> },
    /// Live audio.
    Audio { sample_rate: u32, channels: u16, format: AudioFormat },
    /// Video; the frame rate is held as the bit pattern of its IEEE-754
    /// single-precision value, which is how it travels.
    Video { width: u32, height: u32, fps_bits: u32, format: String },
    /// Raw sensor data.
    Sensor { sensor_type: String },
}

/// The manifest of one chunk: it binds the chunk to its stream header,
/// its plaintext and its position.
#[derive(Debug, Clone)]
pub struct Manifest {
    pub v: u8,
    pub ts_ms: u64,
    pub seq: u64,
    pub header_hash: [u8; 32],
    pub pt_hash: [u8; 32],
    pub key_id: [u8; 16],
    pub ai_used: bool,
    pub model_ids: Vec<String>,
    pub data_type: DataType,
    pub chunk_len: u32,
}

/// An audio format, its texts by their characters.
pub enum AudioFormatView {
    F32Le,
    I16Le,
    I24Le,
    Other(Seq<char>),
}

/// A data type, its texts by their characters.
pub enum DataTypeView {
    Unknown,
    File(Option<Seq<char>>),
    Audio(u32, u16, AudioFormatView),
    Video(u32, u32, u32, Seq<char>),
    Sensor(Seq<char>),
}

/// A manifest, its byte arrays and texts as sequences.
pub struct ManifestView {
    pub v: u8,
    pub ts_ms: u64,
    pub seq: u64,
    pub header_hash: Seq<u8>,
    pub pt_hash: Seq<u8>,
    pub key_id: Seq<u8>,
    pub ai_used: bool,
    pub model_ids: Seq<Seq<char>>,
    pub data_type: DataTypeView,
    pub chunk_len: u32,
}

pub open spec fn audio_format_view(f: AudioFormat) -> AudioFormatView {
    match f {
        AudioFormat::F32Le => AudioFormatView::F32Le,
        AudioFormat::I16Le => AudioFormatView::I16Le,
        AudioFormat::I24Le => AudioFormatView::I24Le,
        AudioFormat::Other(s) => AudioFormatView::Other(s@),
    }
}

pub open spec fn data_type_view(d: DataType) -> DataTypeView {
    match d {
        DataType::Unknown => DataTypeView::Unknown,
        DataType::File { mime_type } => DataTypeView::File(
            match mime_type {
                Some(s) => Some(s@),
                None => None,
            },
        ),
        DataType::Audio { sample_rate, channels, format } => DataTypeView::Audio(
            sample_rate,
            channels,
            audio_format_view(format),
        ),
        DataType::Video { width, height, fps_bits, format } => DataTypeView::Video(
            width,
            height,
            fps_bits,
            format@,
        ),
        DataType::Sensor { sensor_type } => DataTypeView::Sensor(sensor_type@),
    }
}

impl View for Manifest {
    type V = ManifestView;

    open spec fn view(&self) -> ManifestView {
        ManifestView {
            v: self.v,
            ts_ms: self.ts_ms,
            seq: self.seq,
            header_hash: self.header_hash@,
            pt_hash: self.pt_hash@,
            key_id: self.key_id@,
            ai_used: self.ai_used,
            model_ids: self.model_ids@.map_values(|s: String| s@),
            data_type: data_type_view(self.data_type),
            chunk_len: self.chunk_len,
        }
    }
}

// ---------------------------------------------------------------------------
// Layout
// ---------------------------------------------------------------------------

/// A text: its UTF-8 bytes with their length.
pub open spec fn str_layout(s: Seq<char>) -> Seq<u8> {
    framed(encode_utf8(s))
}

/// Texts one after the other (the count is written separately).
pub open spec fn strs_layout(l: Seq<Seq<char>>) -> Seq<u8>
    decreases l.len(),
{
    if l.len() == 0 {
        Seq::empty()
    } else {
        strs_layout(l.drop_last()) + str_layout(l.last())
    }
}

pub open spec fn audio_format_layout(f: AudioFormatView) -> Seq<u8> {
    match f {
        AudioFormatView::F32Le => le32(0),
        AudioFormatView::I16Le => le32(1),
        AudioFormatView::I24Le => le32(2),
        AudioFormatView::Other(s) => le32(3) + str_layout(s),
    }
}

pub open spec fn data_type_layout(d: DataTypeView) -> Seq<u8> {
    match d {
        DataTypeView::Unknown => le32(0),
        DataTypeView::File(m) => le32(1) + match m {
            None => seq![0u8],
            Some(s) => seq![1u8] + str_layout(s),
        },
        DataTypeView::Audio(rate, channels, f) => le32(2) + le32(rate) + le16(channels)
            + audio_format_layout(f),
        DataTypeView::Video(w, h, fps, f) => le32(3) + le32(w) + le32(h) + le32(fps) + str_layout(f),
        DataTypeView::Sensor(s) => le32(4) + str_layout(s),
    }
}

/// The fixed-size fields at the start of a manifest's encoding.
pub open spec fn manifest_head_layout(m: ManifestView) -> Seq<u8> {
    seq![m.v] + le64(m.ts_ms) + le64(m.seq) + m.header_hash + m.pt_hash + m.key_id + seq![
        if m.ai_used {
            1u8
        } else {
            0u8
        },
    ]
}

/// The encoding of a manifest, field after field.
pub open spec fn manifest_layout(m: ManifestView) -> Seq<u8> {
    manifest_head_layout(m) + le64(m.model_ids.len() as u64) + strs_layout(m.model_ids)
        + data_type_layout(m.data_type) + le32(m.chunk_len)
}

// ---------------------------------------------------------------------------
// Parsing
// ---------------------------------------------------------------------------

/// Reads a text at `pos`; it must be valid UTF-8.
pub open spec fn parse_str(b: Seq<u8>, pos: int) -> Option<(Seq<char>, int)> {
    match spec_take_framed(b, pos) {
        Some((raw, p)) => if valid_utf8(raw) {
            Some((decode_utf8(raw), p))
        } else {
            None
        },
        None => None,
    }
}

/// Reads `n` texts one after the other at `pos`.
pub open spec fn parse_strs(b: Seq<u8>, pos: int, n: nat) -> Option<(Seq<Seq<char>>, int)>
    decreases n,
{
    if n == 0 {
        Some((Seq::empty(), pos))
    } else {
        match parse_strs(b, pos, (n - 1) as nat) {
            Some((l, p)) => match parse_str(b, p) {
                Some((s, q)) => Some((l.push(s), q)),
                None => None,
            },
            None => None,
        }
    }
}

pub open spec fn parse_audio_format(b: Seq<u8>, pos: int) -> Option<(AudioFormatView, int)> {
    match spec_take_u32(b, pos) {
        Some((t, p)) => if t == 0 {
            Some((AudioFormatView::F32Le, p))
        } else if t == 1 {
            Some((AudioFormatView::I16Le, p))
        } else if t == 2 {
            Some((AudioFormatView::I24Le, p))
        } else if t == 3 {
            match parse_str(b, p) {
                Some((s, q)) => Some((AudioFormatView::Other(s), q)),
                None => None,
            }
        } else {
            None
        },
        None => None,
    }
}

pub open spec fn parse_file_type(b: Seq<u8>, pos: int) -> Option<(DataTypeView, int)> {
    match spec_take_u8(b, pos) {
        Some((tag, p)) => if tag == 0 {
            Some((DataTypeView::File(None), p))
        } else if tag == 1 {
            match parse_str(b, p) {
                Some((s, q)) => Some((DataTypeView::File(Some(s)), q)),
                None => None,
            }
        } else {
            None
        },
        None => None,
    }
}

pub open spec fn parse_audio_type(b: Seq<u8>, pos: int) -> Option<(DataTypeView, int)> {
    match spec_take_u32(b, pos) {
        Some((rate, p1)) => match spec_take_u16(b, p1) {
            Some((ch, p2)) => match parse_audio_format(b, p2) {
                Some((f, p3)) => Some((DataTypeView::Audio(rate, ch, f), p3)),
                None => None,
            },
            None => None,
        },
        None => None,
    }
}

pub open spec fn parse_video_type(b: Seq<u8>, pos: int) -> Option<(DataTypeView, int)> {
    match spec_take_u32(b, pos) {
        Some((w, p1)) => match spec_take_u32(b, p1) {
            Some((h, p2)) => match spec_take_u32(b, p2) {
                Some((fps, p3)) => match parse_str(b, p3) {
                    Some((f, p4)) => Some((DataTypeView::Video(w, h, fps, f), p4)),
                    None => None,
                },
                None => None,
            },
            None => None,
        },
        None => None,
    }
}

pub open spec fn parse_data_type(b: Seq<u8>, pos: int) -> Option<(DataTypeView, int)> {
    match spec_take_u32(b, pos) {
        Some((t, p)) => if t == 0 {
            Some((DataTypeView::Unknown, p))
        } else if t == 1 {
            parse_file_type(b, p)
        } else if t == 2 {
            parse_audio_type(b, p)
        } else if t == 3 {
            parse_video_type(b, p)
        } else if t == 4 {
            match parse_str(b, p) {
                Some((s, q)) => Some((DataTypeView::Sensor(s), q)),
                None => None,
            }
        } else {
            None
        },
        None => None,
    }
}

/// The fixed-size fields at the start of a manifest.
pub open spec fn parse_manifest_head(b: Seq<u8>) -> Option<(u8, u64, u64, Seq<u8>, Seq<u8>, Seq<u8>, bool, int)> {
    match spec_take_u8(b, 0) {
        Some((v, p1)) => match spec_take_u64(b, p1) {
            Some((ts, p2)) => match spec_take_u64(b, p2) {
                Some((seq, p3)) => match spec_take_raw(b, p3, 32) {
                    Some((hh, p4)) => match spec_take_raw(b, p4, 32) {
                        Some((ph, p5)) => match spec_take_raw(b, p5, 16) {
                            Some((kid, p6)) => match spec_take_u8(b, p6) {
                                Some((ai, p7)) => if ai == 0 || ai == 1 {
                                    Some((v, ts, seq, hh, ph, kid, ai == 1, p7))
                                } else {
                                    None
                                },
                                None => None,
                            },
                            None => None,
                        },
                        None => None,
                    },
                    None => None,
                },
                None => None,
            },
            None => None,
        },
        None => None,
    }
}

/// Decodes a manifest from the start of `b` (trailing bytes are ignored).
pub open spec fn parse_manifest(b: Seq<u8>) -> Option<ManifestView> {
    match parse_manifest_head(b) {
        Some((v, ts, seq, hh, ph, kid, ai, p7)) => match spec_take_u64(b, p7) {
            Some((n, p8)) => match parse_strs(b, p8, n as nat) {
                Some((ids, p9)) => match parse_data_type(b, p9) {
                    Some((dt, p10)) => match spec_take_u32(b, p10) {
                        Some((len, _p11)) => Some(
                            ManifestView {
                                v,
                                ts_ms: ts,
                                seq,
                                header_hash: hh,
                                pt_hash: ph,
                                key_id: kid,
                                ai_used: ai,
                                model_ids: ids,
                                data_type: dt,
                                chunk_len: len,
                            },
                        ),
                        None => None,
                    },
                    None => None,
                },
                None => None,
            },
            None => None,
        },
        None => None,
    }
}

// ---------------------------------------------------------------------------
// Encoding and decoding
// ---------------------------------------------------------------------------

fn put_str(out: &mut Vec<u8>, s: &str)
    ensures
        final(out)@ == old(out)@ + str_layout(s@),
{
    put_framed(out, s.as_bytes());
}

fn put_audio_format(out: &mut Vec<u8>, f: &AudioFormat)
    ensures
        final(out)@ == old(out)@ + audio_format_layout(audio_format_view(*f)),
{
    match f {
        AudioFormat::F32Le => put_u32_le(out, 0),
        AudioFormat::I16Le => put_u32_le(out, 1),
        AudioFormat::I24Le => put_u32_le(out, 2),
        AudioFormat::Other(s) => {
            let ghost o = out@;
            put_u32_le(out, 3);
            put_str(out, s.as_str());
            assert(out@ =~= o + audio_format_layout(audio_format_view(*f)));
        },
    }
}

fn put_data_type(out: &mut Vec<u8>, d: &DataType)
    ensures
        final(out)@ == old(out)@ + data_type_layout(data_type_view(*d)),
{
    let ghost o = out@;
    match d {
        DataType::Unknown => put_u32_le(out, 0),
        DataType::File { mime_type } => {
            put_u32_le(out, 1);
            match mime_type {
                None => {
                    out.push(0u8);
                },
                Some(s) => {
                    out.push(1u8);
                    put_str(out, s.as_str());
                },
            }
        },
        DataType::Audio { sample_rate, channels, format } => {
            put_u32_le(out, 2);
            put_u32_le(out, *sample_rate);
            put_u16_le(out, *channels);
            put_audio_format(out, format);
        },
        DataType::Video { width, height, fps_bits, format } => {
            put_u32_le(out, 3);
            put_u32_le(out, *width);
            put_u32_le(out, *height);
            put_u32_le(out, *fps_bits);
            put_str(out, format.as_str());
        },
        DataType::Sensor { sensor_type } => {
            put_u32_le(out, 4);
            put_str(out, sensor_type.as_str());
        },
    }
    assert(out@ =~= o + data_type_layout(data_type_view(*d)));
}

fn take_str(input: &[u8], pos: usize) -> (r: Option<(String, usize)>)
    ensures
        match r {
            Some((s, p)) => parse_str(input@, pos as int) == Some((s@, p as int)),
            None => parse_str(input@, pos as int) is None,
        },
{
    match take_framed(input, pos) {
        None => None,
        Some((raw, p)) => match string_from_utf8(raw) {
            Some(s) => Some((s, p)),
            None => None,
        },
    }
}

fn take_strs(input: &[u8], pos: usize, n: u64) -> (r: Option<(Vec<String>, usize)>)
    ensures
        match r {
            Some((l, p)) => parse_strs(input@, pos as int, n as nat) == Some(
                (l@.map_values(|s: String| s@), p as int),
            ),
            None => parse_strs(input@, pos as int, n as nat) is None,
        },
{
    let mut out: Vec<String> = Vec::new();
    let mut p = pos;
    let mut i: u64 = 0;
    while i < n
        invariant
            i <= n,
            parse_strs(input@, pos as int, i as nat) == Some(
                (out@.map_values(|s: String| s@), p as int),
            ),
        decreases n - i,
    {
        proof {
            assert(parse_strs(input@, pos as int, (i + 1) as nat) == match parse_str(input@, p as int) {
                Some((s, q)) => Some((out@.map_values(|s: String| s@).push(s), q)),
                None => None,
            });
        }
        match take_str(input, p) {
            None => {
                proof {
                    lemma_parse_strs_none(input@, pos as int, (i + 1) as nat, n as nat);
                }
                return None;
            },
            Some((s, q)) => {
                let ghost before = out@;
                out.push(s);
                proof {
                    assert(out@.map_values(|s: String| s@) =~= before.map_values(|s: String| s@).push(
                        s@,
                    ));
                }
                p = q;
            },
        }
        i = i + 1;
    }
    Some((out, p))
}

#[verifier::spinoff_prover]
proof fn lemma_parse_strs_none(b: Seq<u8>, pos: int, k: nat, n: nat)
    requires
        k <= n,
        parse_strs(b, pos, k) is None,
    ensures
        parse_strs(b, pos, n) is None,
    decreases n - k,
{
    if k < n {
        lemma_parse_strs_none(b, pos, k, (n - 1) as nat);
    }
}

fn take_audio_format(input: &[u8], pos: usize) -> (r: Option<(AudioFormat, usize)>)
    ensures
        match r {
            Some((f, p)) => parse_audio_format(input@, pos as int) == Some((audio_format_view(f), p as int)),
            None => parse_audio_format(input@, pos as int) is None,
        },
{
    let (t, p) = match take_u32(input, pos) {
        Some(x) => x,
        None => return None,
    };
    if t == 0 {
        Some((AudioFormat::F32Le, p))
    } else if t == 1 {
        Some((AudioFormat::I16Le, p))
    } else if t == 2 {
        Some((AudioFormat::I24Le, p))
    } else if t == 3 {
        match take_str(input, p) {
            Some((s, q)) => Some((AudioFormat::Other(s), q)),
            None => None,
        }
    } else {
        None
    }
}

fn take_data_type(input: &[u8], pos: usize) -> (r: Option<(DataType, usize)>)
    ensures
        match r {
            Some((d, p)) => parse_data_type(input@, pos as int) == Some((data_type_view(d), p as int)),
            None => parse_data_type(input@, pos as int) is None,
        },
{
    let (t, p) = match take_u32(input, pos) {
        Some(x) => x,
        None => return None,
    };
    if t == 0 {
        Some((DataType::Unknown, p))
    } else if t == 1 {
        let (tag, p1) = match take_u8(input, p) {
            Some(x) => x,
            None => return None,
        };
        if tag == 0 {
            Some((DataType::File { mime_type: None }, p1))
        } else if tag == 1 {
            match take_str(input, p1) {
                Some((s, q)) => Some((DataType::File { mime_type: Some(s) }, q)),
                None => None,
            }
        } else {
            None
        }
    } else if t == 2 {
        let (rate, p1) = match take_u32(input, p) {
            Some(x) => x,
            None => return None,
        };
        let (ch, p2) = match take_u16(input, p1) {
            Some(x) => x,
            None => return None,
        };
        match take_audio_format(input, p2) {
            Some((f, p3)) => Some((DataType::Audio { sample_rate: rate, channels: ch, format: f }, p3)),
            None => None,
        }
    } else if t == 3 {
        let (w, p1) = match take_u32(input, p) {
            Some(x) => x,
            None => return None,
        };
        let (h, p2) = match take_u32(input, p1) {
            Some(x) => x,
            None => return None,
        };
        let (fps, p3) = match take_u32(input, p2) {
            Some(x) => x,
            None => return None,
        };
        match take_str(input, p3) {
            Some((f, p4)) => Some((DataType::Video { width: w, height: h, fps_bits: fps, format: f }, p4)),
            None => None,
        }
    } else if t == 4 {
        match take_str(input, p) {
            Some((s, q)) => Some((DataType::Sensor { sensor_type: s }, q)),
            None => None,
        }
    } else {
        None
    }
}

fn take_array<const N: usize>(input: &[u8], pos: usize) -> (r: Option<([u8; N], usize)>)
    ensures
        match r {
            Some((a, p)) => spec_take_raw(input@, pos as int, N as int) == Some((a@, p as int)),
            None => spec_take_raw(input@, pos as int, N as int) is None,
        },
{
    let len = input.len();
    if pos > len || len - pos < N {
        return None;
    }
    let a: [u8; N] = crate::codec::read_array::<N>(input, pos);
    Some((a, pos + N))
}

impl Manifest {
    /// Encodes the manifest; see [`manifest_layout`].
    pub fn to_wire(&self) -> (r: Vec<u8>)
        ensures
            r@ == manifest_layout(self@),
    {
        let mut out: Vec<u8> = Vec::new();
        out.push(self.v);
        put_u64_le(&mut out, self.ts_ms);
        put_u64_le(&mut out, self.seq);
        push_all(&mut out, self.header_hash.as_slice());
        push_all(&mut out, self.pt_hash.as_slice());
        push_all(&mut out, self.key_id.as_slice());
        out.push(if self.ai_used { 1u8 } else { 0u8 });
        let n = self.model_ids.len();
        put_u64_le(&mut out, n as u64);
        let ghost before = out@;
        let mut i: usize = 0;
        while i < n
            invariant
                i <= n,
                n == self.model_ids@.len(),
                out@ == before + strs_layout(self.model_ids@.map_values(|s: String| s@).take(i as int)),
            decreases n - i,
        {
            put_str(&mut out, self.model_ids[i].as_str());
            proof {
                let l = self.model_ids@.map_values(|s: String| s@);
                assert(l.take(i + 1).drop_last() =~= l.take(i as int));
                assert(l.take(i + 1).last() == self.model_ids@[i as int]@);
            }
            i = i + 1;
        }
        proof {
            let l = self.model_ids@.map_values(|s: String| s@);
            assert(l.take(n as int) =~= l);
        }
        put_data_type(&mut out, &self.data_type);
        put_u32_le(&mut out, self.chunk_len);
        assert(out@ =~= manifest_layout(self@));
        out
    }

    /// Decodes a manifest from the start of `bytes`; see [`parse_manifest`].
    pub fn from_wire(bytes: &[u8]) -> (r: Option<Manifest>)
        ensures
            match r {
                Some(m) => parse_manifest(bytes@) == Some(m@),
                None => parse_manifest(bytes@) is None,
            },
    {
        let (v, p1) = match take_u8(bytes, 0) {
            Some(x) => x,
            None => return None,
        };
        let (ts_ms, p2) = match take_u64(bytes, p1) {
            Some(x) => x,
            None => return None,
        };
        let (seq, p3) = match take_u64(bytes, p2) {
            Some(x) => x,
            None => return None,
        };
        let (header_hash, p4) = match take_array::<32>(bytes, p3) {
            Some(x) => x,
            None => return None,
        };
        let (pt_hash, p5) = match take_array::<32>(bytes, p4) {
            Some(x) => x,
            None => return None,
        };
        let (key_id, p6) = match take_array::<16>(bytes, p5) {
            Some(x) => x,
            None => return None,
        };
        let (ai, p7) = match take_u8(bytes, p6) {
            Some(x) => x,
            None => return None,
        };
        if ai > 1 {
            return None;
        }
        let (n, p8) = match take_u64(bytes, p7) {
            Some(x) => x,
            None => return None,
        };
        let (model_ids, p9) = match take_strs(bytes, p8, n) {
            Some(x) => x,
            None => return None,
        };
        let (data_type, p10) = match take_data_type(bytes, p9) {
            Some(x) => x,
            None => return None,
        };
        let (chunk_len, _p11) = match take_u32(bytes, p10) {
            Some(x) => x,
            None => return None,
        };
        Some(
            Manifest {
                v,
                ts_ms,
                seq,
                header_hash,
                pt_hash,
                key_id,
                ai_used: ai == 1,
                model_ids,
                data_type,
                chunk_len,
            },
        )
    }
}

// ---------------------------------------------------------------------------
// Round trip
// ---------------------------------------------------------------------------

/// A text whose encoding has a length that fits the length prefix.
pub open spec fn text_fits(s: Seq<char>) -> bool {
    encode_utf8(s).len() <= u64::MAX
}

pub open spec fn data_type_fits(d: DataTypeView) -> bool {
    match d {
        DataTypeView::Unknown => true,
        DataTypeView::File(m) => match m {
            Some(s) => text_fits(s),
            None => true,
        },
        DataTypeView::Audio(_, _, f) => match f {
            AudioFormatView::Other(s) => text_fits(s),
            _ => true,
        },
        DataTypeView::Video(_, _, _, f) => text_fits(f),
        DataTypeView::Sensor(s) => text_fits(s),
    }
}

/// A manifest whose arrays have their sizes and whose lengths fit their
/// prefixes: every manifest held in memory.
pub open spec fn manifest_fits(m: ManifestView) -> bool {
    &&& m.header_hash.len() == 32
    &&& m.pt_hash.len() == 32
    &&& m.key_id.len() == 16
    &&& m.model_ids.len() <= u64::MAX
    &&& forall|i: int| 0 <= i < m.model_ids.len() ==> text_fits(#[trigger] m.model_ids[i])
    &&& data_type_fits(m.data_type)
}

#[verifier::spinoff_prover]
proof fn lemma_parse_str(prefix: Seq<u8>, s: Seq<char>, rest: Seq<u8>)
    requires
        text_fits(s),
    ensures
        parse_str(prefix + str_layout(s) + rest, prefix.len() as int) == Some(
            (s, prefix.len() + str_layout(s).len() as int),
        ),
        str_layout(s).len() == 8 + encode_utf8(s).len(),
{
    lemma_take_framed(prefix, encode_utf8(s), rest);
}

#[verifier::spinoff_prover]
proof fn lemma_parse_strs(prefix: Seq<u8>, l: Seq<Seq<char>>, rest: Seq<u8>)
    requires
        forall|i: int| 0 <= i < l.len() ==> text_fits(#[trigger] l[i]),
    ensures
        parse_strs(prefix + strs_layout(l) + rest, prefix.len() as int, l.len()) == Some(
            (l, prefix.len() + strs_layout(l).len() as int),
        ),
    decreases l.len(),
{
    if l.len() > 0 {
        let init = l.drop_last();
        let last = l.last();
        assert(text_fits(l[l.len() - 1]));
        assert forall|i: int| 0 <= i < init.len() implies text_fits(#[trigger] init[i]) by {
            assert(init[i] == l[i]);
        }
        assert(prefix + strs_layout(l) + rest =~= prefix + strs_layout(init) + (str_layout(last) + rest));
        lemma_parse_strs(prefix, init, str_layout(last) + rest);
        assert(prefix + strs_layout(l) + rest =~= (prefix + strs_layout(init)) + str_layout(last) + rest);
        lemma_parse_str(prefix + strs_layout(init), last, rest);
        assert(init.push(last) =~= l);
    } else {
        assert(strs_layout(l) =~= Seq::<u8>::empty());
        assert(l =~= Seq::<Seq<char>>::empty());
    }
}

#[verifier::spinoff_prover]
proof fn lemma_parse_audio_format(prefix: Seq<u8>, f: AudioFormatView, rest: Seq<u8>)
    requires
        match f {
            AudioFormatView::Other(s) => text_fits(s),
            _ => true,
        },
    ensures
        parse_audio_format(prefix + audio_format_layout(f) + rest, prefix.len() as int) == Some(
            (f, prefix.len() + audio_format_layout(f).len() as int),
        ),
{
    match f {
        AudioFormatView::Other(s) => {
            let b = prefix + audio_format_layout(f) + rest;
            assert(b =~= prefix + le32(3) + (str_layout(s) + rest));
            lemma_take_u32(prefix, 3, str_layout(s) + rest);
            assert(b =~= (prefix + le32(3)) + str_layout(s) + rest);
            lemma_parse_str(prefix + le32(3), s, rest);
        },
        AudioFormatView::F32Le => {
            lemma_take_u32(prefix, 0, rest);
        },
        AudioFormatView::I16Le => {
            lemma_take_u32(prefix, 1, rest);
        },
        AudioFormatView::I24Le => {
            lemma_take_u32(prefix, 2, rest);
        },
    }
}

#[verifier::spinoff_prover]
proof fn lemma_parse_file_type(prefix: Seq<u8>, m: Option<Seq<char>>, rest: Seq<u8>)
    requires
        m matches Some(s) ==> text_fits(s),
    ensures
        ({
            let body = match m {
                None => seq![0u8],
                Some(s) => seq![1u8] + str_layout(s),
            };
            parse_file_type(prefix + body + rest, prefix.len() as int) == Some(
                (DataTypeView::File(m), prefix.len() + body.len() as int),
            )
        }),
{
    match m {
        None => {
            lemma_take_u8(prefix, 0, rest);
        },
        Some(s) => {
            let b = prefix + (seq![1u8] + str_layout(s)) + rest;
            assert(b =~= prefix + seq![1u8] + (str_layout(s) + rest));
            lemma_take_u8(prefix, 1, str_layout(s) + rest);
            assert(b =~= (prefix + seq![1u8]) + str_layout(s) + rest);
            lemma_parse_str(prefix + seq![1u8], s, rest);
        },
    }
}

#[verifier::spinoff_prover]
#[verifier::rlimit(40)]
proof fn lemma_parse_audio_type(prefix: Seq<u8>, rate: u32, ch: u16, f: AudioFormatView, rest: Seq<u8>)
    requires
        f matches AudioFormatView::Other(s) ==> text_fits(s),
    ensures
        ({
            let body = le32(rate) + le16(ch) + audio_format_layout(f);
            parse_audio_type(prefix + body + rest, prefix.len() as int) == Some(
                (DataTypeView::Audio(rate, ch, f), prefix.len() + body.len() as int),
            )
        }),
{
    let body = le32(rate) + le16(ch) + audio_format_layout(f);
    let b = prefix + body + rest;
    let p2 = prefix + le32(rate);
    let p3 = p2 + le16(ch);
    assert(b =~= prefix + le32(rate) + (le16(ch) + audio_format_layout(f) + rest));
    lemma_take_u32(prefix, rate, le16(ch) + audio_format_layout(f) + rest);
    assert(b =~= p2 + le16(ch) + (audio_format_layout(f) + rest));
    lemma_take_u16(p2, ch, audio_format_layout(f) + rest);
    assert(b =~= p3 + audio_format_layout(f) + rest);
    lemma_parse_audio_format(p3, f, rest);
}

#[verifier::spinoff_prover]
#[verifier::rlimit(40)]
proof fn lemma_parse_video_type(prefix: Seq<u8>, w: u32, h: u32, fps: u32, f: Seq<char>, rest: Seq<u8>)
    requires
        text_fits(f),
    ensures
        ({
            let body = le32(w) + le32(h) + le32(fps) + str_layout(f);
            parse_video_type(prefix + body + rest, prefix.len() as int) == Some(
                (DataTypeView::Video(w, h, fps, f), prefix.len() + body.len() as int),
            )
        }),
{
    let body = le32(w) + le32(h) + le32(fps) + str_layout(f);
    let b = prefix + body + rest;
    let p2 = prefix + le32(w);
    let p3 = p2 + le32(h);
    let p4 = p3 + le32(fps);
    assert(b =~= prefix + le32(w) + (le32(h) + le32(fps) + str_layout(f) + rest));
    lemma_take_u32(prefix, w, le32(h) + le32(fps) + str_layout(f) + rest);
    assert(b =~= p2 + le32(h) + (le32(fps) + str_layout(f) + rest));
    lemma_take_u32(p2, h, le32(fps) + str_layout(f) + rest);
    assert(b =~= p3 + le32(fps) + (str_layout(f) + rest));
    lemma_take_u32(p3, fps, str_layout(f) + rest);
    assert(b =~= p4 + str_layout(f) + rest);
    lemma_parse_str(p4, f, rest);
}

/// The variant index of a data type's encoding.
pub open spec fn data_type_tag(d: DataTypeView) -> u32 {
    match d {
        DataTypeView::Unknown => 0,
        DataTypeView::File(_) => 1,
        DataTypeView::Audio(..) => 2,
        DataTypeView::Video(..) => 3,
        DataTypeView::Sensor(_) => 4,
    }
}

/// What follows the variant index in a data type's encoding.
pub open spec fn data_type_body(d: DataTypeView) -> Seq<u8> {
    match d {
        DataTypeView::Unknown => Seq::empty(),
        DataTypeView::File(m) => match m {
            None => seq![0u8],
            Some(s) => seq![1u8] + str_layout(s),
        },
        DataTypeView::Audio(rate, channels, f) => le32(rate) + le16(channels) + audio_format_layout(f),
        DataTypeView::Video(w, h, fps, f) => le32(w) + le32(h) + le32(fps) + str_layout(f),
        DataTypeView::Sensor(s) => str_layout(s),
    }
}

#[verifier::spinoff_prover]
#[verifier::rlimit(50)]
proof fn lemma_parse_data_type(prefix: Seq<u8>, d: DataTypeView, rest: Seq<u8>)
    requires
        data_type_fits(d),
    ensures
        parse_data_type(prefix + data_type_layout(d) + rest, prefix.len() as int) == Some(
            (d, prefix.len() + data_type_layout(d).len() as int),
        ),
{
    let b = prefix + data_type_layout(d) + rest;
    let body = data_type_body(d);
    assert(data_type_layout(d) =~= le32(data_type_tag(d)) + body);
    assert(b =~= prefix + le32(data_type_tag(d)) + (body + rest));
    lemma_take_u32(prefix, data_type_tag(d), body + rest);
    let p1 = prefix + le32(data_type_tag(d));
    assert(b =~= p1 + body + rest);
    match d {
        DataTypeView::Unknown => {
            assert(body =~= Seq::<u8>::empty());
        },
        DataTypeView::File(m) => {
            lemma_parse_file_type(p1, m, rest);
        },
        DataTypeView::Audio(rate, ch, f) => {
            lemma_parse_audio_type(p1, rate, ch, f, rest);
        },
        DataTypeView::Video(w, h, fps, f) => {
            lemma_parse_video_type(p1, w, h, fps, f, rest);
        },
        DataTypeView::Sensor(s) => {
            lemma_parse_str(p1, s, rest);
        },
    }
}

#[verifier::spinoff_prover]
proof fn lemma_parse_manifest_head(m: ManifestView, tail: Seq<u8>)
    requires
        m.header_hash.len() == 32,
        m.pt_hash.len() == 32,
        m.key_id.len() == 16,
    ensures
        parse_manifest_head(manifest_head_layout(m) + tail) == Some(
            (
                m.v,
                m.ts_ms,
                m.seq,
                m.header_hash,
                m.pt_hash,
                m.key_id,
                m.ai_used,
                manifest_head_layout(m).len() as int,
            ),
        ),
{
    let e = Seq::<u8>::empty();
    let ai: u8 = if m.ai_used {
        1u8
    } else {
        0u8
    };
    let s1 = seq![m.v];
    let s2 = s1 + le64(m.ts_ms);
    let s3 = s2 + le64(m.seq);
    let s4 = s3 + m.header_hash;
    let s5 = s4 + m.pt_hash;
    let s6 = s5 + m.key_id;
    let b = manifest_head_layout(m) + tail;
    assert(b =~= e + seq![m.v] + (le64(m.ts_ms) + le64(m.seq) + m.header_hash + m.pt_hash + m.key_id
        + seq![ai] + tail));
    lemma_take_u8(e, m.v, le64(m.ts_ms) + le64(m.seq) + m.header_hash + m.pt_hash + m.key_id + seq![ai] + tail);
    assert(b =~= s1 + le64(m.ts_ms) + (le64(m.seq) + m.header_hash + m.pt_hash + m.key_id + seq![ai] + tail));
    lemma_take_u64(s1, m.ts_ms, le64(m.seq) + m.header_hash + m.pt_hash + m.key_id + seq![ai] + tail);
    assert(b =~= s2 + le64(m.seq) + (m.header_hash + m.pt_hash + m.key_id + seq![ai] + tail));
    lemma_take_u64(s2, m.seq, m.header_hash + m.pt_hash + m.key_id + seq![ai] + tail);
    assert(b =~= s3 + m.header_hash + (m.pt_hash + m.key_id + seq![ai] + tail));
    lemma_take_raw(s3, m.header_hash, m.pt_hash + m.key_id + seq![ai] + tail);
    assert(b =~= s4 + m.pt_hash + (m.key_id + seq![ai] + tail));
    lemma_take_raw(s4, m.pt_hash, m.key_id + seq![ai] + tail);
    assert(b =~= s5 + m.key_id + (seq![ai] + tail));
    lemma_take_raw(s5, m.key_id, seq![ai] + tail);
    assert(b =~= s6 + seq![ai] + tail);
    lemma_take_u8(s6, ai, tail);
}

/// A manifest decodes from its own encoding, whatever follows it.
#[verifier::rlimit(100)]
#[verifier::spinoff_prover]
pub proof fn law_manifest_roundtrip(m: ManifestView, rest: Seq<u8>)
    requires
        manifest_fits(m),
    ensures
        parse_manifest(manifest_layout(m) + rest) == Some(m),
{
    let h = manifest_head_layout(m);
    let cnt = le64(m.model_ids.len() as u64);
    let ids = strs_layout(m.model_ids);
    let dt = data_type_layout(m.data_type);
    let b = manifest_layout(m) + rest;
    let p7 = h.len() as int;
    let p8 = p7 + 8;
    let p9 = p8 + ids.len() as int;
    let p10 = p9 + dt.len() as int;
    assert(parse_manifest_head(b) == Some(
        (m.v, m.ts_ms, m.seq, m.header_hash, m.pt_hash, m.key_id, m.ai_used, p7),
    )) by {
        assert(b =~= h + b.subrange(p7, b.len() as int));
        lemma_parse_manifest_head(m, b.subrange(p7, b.len() as int));
    }
    assert(spec_take_u64(b, p7) == Some((m.model_ids.len() as u64, p8))) by {
        assert(b =~= h + cnt + b.subrange(p8, b.len() as int));
        lemma_take_u64(h, m.model_ids.len() as u64, b.subrange(p8, b.len() as int));
    }
    assert(parse_strs(b, p8, m.model_ids.len()) == Some((m.model_ids, p9))) by {
        assert(b =~= (h + cnt) + ids + b.subrange(p9, b.len() as int));
        lemma_parse_strs(h + cnt, m.model_ids, b.subrange(p9, b.len() as int));
    }
    assert(parse_data_type(b, p9) == Some((m.data_type, p10))) by {
        assert(b =~= (h + cnt + ids) + dt + b.subrange(p10, b.len() as int));
        lemma_parse_data_type(h + cnt + ids, m.data_type, b.subrange(p10, b.len() as int));
    }
    assert(spec_take_u32(b, p10) == Some((m.chunk_len, p10 + 4))) by {
        lemma_take_u32(h + cnt + ids + dt, m.chunk_len, rest);
    }
    assert((m.model_ids.len() as u64) as nat == m.model_ids.len());
}

} // verus!
