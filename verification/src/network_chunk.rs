//! The unit of transfer: one encrypted chunk with its signed manifest.

use crate::format::NONCE_LEN;
use crate::primitives::unix_time_secs;
use vstd::prelude::*;

verus! {

/// One encrypted chunk of a stream.
#[derive(Debug, Clone)]
pub struct NetworkChunk {
    /// Position of the chunk in the stream.
    pub sequence: u64,
    /// The encrypted payload.
    pub data: Vec<u8>,
    /// The encoded signed manifest.
    pub manifest: Vec<u8>,
    /// The AES-GCM nonce.
    pub nonce: [u8; NONCE_LEN],
    /// Creation time, seconds since the UNIX epoch.
    pub timestamp: u64,
}

/// Why a chunk is refused at time `now`, if it is.
pub open spec fn chunk_problem(data: Seq<u8>, manifest: Seq<u8>, timestamp: u64, now: Result<u64, Seq<char>>) -> Option<Seq<char>> {
    if data.len() == 0 {
        Some("Chunk data is empty"@)
    } else if manifest.len() == 0 {
        Some("Manifest is empty"@)
    } else {
        match now {
            Err(e) => Some("Time error: "@ + e),
            Ok(t) => if timestamp > t + 300 {
                Some("Chunk timestamp is too far in the future"@)
            } else {
                None
            },
        }
    }
}

fn now_or_zero() -> (r: u64) {
    match unix_time_secs() {
        Ok(t) => t,
        Err(_) => 0,
    }
}

impl NetworkChunk {
    /// A chunk with a zero nonce, stamped with the time `now` (seconds since
    /// the UNIX epoch).
    pub fn new_at(seq: u64, encrypted_data: Vec<u8>, manifest_bytes: Vec<u8>, now: u64) -> (r: NetworkChunk)
        ensures
            r.sequence == seq,
            r.data == encrypted_data,
            r.manifest == manifest_bytes,
            r.nonce@ == Seq::new(NONCE_LEN as nat, |i: int| 0u8),
            r.timestamp == now,
    {
        let nonce = [0u8; NONCE_LEN];
        assert(nonce@ =~= Seq::new(NONCE_LEN as nat, |i: int| 0u8));
        NetworkChunk::new_with_nonce_at(seq, encrypted_data, manifest_bytes, nonce, now)
    }

    /// A chunk with a zero nonce, stamped with the current time (zero if the
    /// clock is before the epoch); see [`NetworkChunk::new_at`].
    pub fn new(seq: u64, encrypted_data: Vec<u8>, manifest_bytes: Vec<u8>) -> (r: NetworkChunk)
        ensures
            r.sequence == seq,
            r.data == encrypted_data,
            r.manifest == manifest_bytes,
            r.nonce@ == Seq::new(NONCE_LEN as nat, |i: int| 0u8),
    {
        NetworkChunk::new_at(seq, encrypted_data, manifest_bytes, now_or_zero())
    }

    /// A chunk with an explicit nonce, stamped with the time `now`.
    pub fn new_with_nonce_at(
        seq: u64,
        encrypted_data: Vec<u8>,
        manifest_bytes: Vec<u8>,
        nonce: [u8; NONCE_LEN],
        now: u64,
    ) -> (r: NetworkChunk)
        ensures
            r.sequence == seq,
            r.data == encrypted_data,
            r.manifest == manifest_bytes,
            r.nonce == nonce,
            r.timestamp == now,
    {
        NetworkChunk { sequence: seq, data: encrypted_data, manifest: manifest_bytes, nonce, timestamp: now }
    }

    /// A chunk with an explicit nonce, stamped with the current time (zero
    /// if the clock is before the epoch); see
    /// [`NetworkChunk::new_with_nonce_at`].
    pub fn new_with_nonce(
        seq: u64,
        encrypted_data: Vec<u8>,
        manifest_bytes: Vec<u8>,
        nonce: [u8; NONCE_LEN],
    ) -> (r: NetworkChunk)
        ensures
            r.sequence == seq,
            r.data == encrypted_data,
            r.manifest == manifest_bytes,
            r.nonce == nonce,
    {
        NetworkChunk::new_with_nonce_at(seq, encrypted_data, manifest_bytes, nonce, now_or_zero())
    }

    /// Checks the chunk against a reading of the clock: data and manifest
    /// must be present and the timestamp at most five minutes ahead.
    pub fn validate_at(&self, now: Result<u64, String>) -> (r: Result<(), String>)
        ensures
            match chunk_problem(
                self.data@,
                self.manifest@,
                self.timestamp,
                match now {
                    Ok(t) => Ok(t),
                    Err(e) => Err(e@),
                },
            ) {
                None => r is Ok,
                Some(m) => r matches Err(e) && e@ == m,
            },
    {
        if self.data.len() == 0 {
            return Err(String::from_str("Chunk data is empty"));
        }
        if self.manifest.len() == 0 {
            return Err(String::from_str("Manifest is empty"));
        }
        let t = match now {
            Ok(t) => t,
            Err(e) => {
                let mut m = String::from_str("Time error: ");
                m.append(e.as_str());
                return Err(m);
            },
        };
        if self.timestamp > t && self.timestamp - t > 300 {
            return Err(String::from_str("Chunk timestamp is too far in the future"));
        }
        Ok(())
    }

    /// Checks the chunk against the current time; see [`validate_at`].
    pub fn validate(&self) -> (r: Result<(), String>)
        ensures
            self.data@.len() == 0 ==> (r matches Err(e) && e@ == "Chunk data is empty"@),
            self.data@.len() != 0 && self.manifest@.len() == 0 ==> (r matches Err(e) && e@
                == "Manifest is empty"@),
    {
        let now = unix_time_secs();
        self.validate_at(now)
    }
}

} // verus!
