//! The container header record and its binary codec.
//!
//! The serialized header is exactly 64 bytes, little-endian throughout:
//!
//! ```text
//! [0:4)   magic constant (not a Header field)
//! [4:6)   version
//! [6:8)   flags
//! [8:12)  logical_qubit_count
//! [12:16) classical_register_count
//! [16:24) instruction_count
//! [24:32) constant_pool_offset
//! [32:40) instruction_stream_offset
//! [40:48) constant_pool_size
//! [48:56) instruction_stream_size
//! [56:64) header_checksum (FNV-1a over bytes [0:56))
//! ```

use crate::checksum::fnv1a_64;
use crate::checksum::spec_fnv1a_64;
use vstd::bytes::*;
use vstd::prelude::*;
use vstd::slice::slice_subrange;

verus! {

broadcast use vstd::array::group_array_axioms;

/// Fixed 4-byte sentinel at the start of every serialized header.
pub const QISA_MAGIC_BYTES: u32 = 0x4155544D;

/// Format revision written by the constructor.
pub const QISA_VERSION: u16 = 0x0001;

/// Size of the serialized header in bytes.
pub const QISA_HEADER_SIZE: usize = 64;

/// The header's in-memory record. It deliberately carries no magic field:
/// the magic constant exists only in the serialized buffer, so no code can
/// corrupt it between construction and serialization.
#[derive(Clone, Copy, Debug, PartialEq, Eq, Structural)]
pub struct Header {
    pub version: u16,
    pub flags: u16,
    pub logical_qubit_count: u32,
    pub classical_register_count: u32,
    pub instruction_count: u64,
    pub constant_pool_offset: u64,
    pub instruction_stream_offset: u64,
    pub constant_pool_size: u64,
    pub instruction_stream_size: u64,
    pub header_checksum: u64,
}

/// Why parsing a byte buffer was rejected.
#[derive(Clone, Copy, Debug, PartialEq, Eq, Structural)]
pub enum HeaderError {
    /// The input holds fewer than `QISA_HEADER_SIZE` bytes.
    TooSmall,
    /// Bytes `[0:4)` do not spell the magic constant.
    InvalidMagic,
    /// The stored checksum disagrees with the one recomputed over `[0:56)`.
    ChecksumMismatch,
}

/// The first 56 serialized bytes: magic, then every field but the checksum,
/// each little-endian, in layout order.
pub open spec fn spec_header_prefix(h: Header) -> Seq<u8> {
    spec_u32_to_le_bytes(QISA_MAGIC_BYTES) + spec_u16_to_le_bytes(h.version)
        + spec_u16_to_le_bytes(h.flags) + spec_u32_to_le_bytes(h.logical_qubit_count)
        + spec_u32_to_le_bytes(h.classical_register_count) + spec_u64_to_le_bytes(
        h.instruction_count,
    ) + spec_u64_to_le_bytes(h.constant_pool_offset) + spec_u64_to_le_bytes(
        h.instruction_stream_offset,
    ) + spec_u64_to_le_bytes(h.constant_pool_size) + spec_u64_to_le_bytes(
        h.instruction_stream_size,
    )
}

/// The checksum that serialization stores: the FNV-1a digest of the first
/// 56 serialized bytes. It depends on every field but `header_checksum`.
pub open spec fn spec_checksum_of(h: Header) -> u64 {
    spec_fnv1a_64(spec_header_prefix(h))
}

/// The full 64-byte serialized form of a header.
pub open spec fn spec_serialize(h: Header) -> Seq<u8> {
    spec_header_prefix(h) + spec_u64_to_le_bytes(spec_checksum_of(h))
}

/// What parsing yields on any input: the checks run in a fixed order —
/// length, then magic, then checksum — and only then are fields decoded.
pub open spec fn spec_parse(s: Seq<u8>) -> Result<Header, HeaderError> {
    if s.len() < QISA_HEADER_SIZE {
        Err(HeaderError::TooSmall)
    } else if spec_u32_from_le_bytes(s.subrange(0, 4)) != QISA_MAGIC_BYTES {
        Err(HeaderError::InvalidMagic)
    } else if spec_u64_from_le_bytes(s.subrange(56, 64)) != spec_fnv1a_64(s.subrange(0, 56)) {
        Err(HeaderError::ChecksumMismatch)
    } else {
        Ok(
            Header {
                version: spec_u16_from_le_bytes(s.subrange(4, 6)),
                flags: spec_u16_from_le_bytes(s.subrange(6, 8)),
                logical_qubit_count: spec_u32_from_le_bytes(s.subrange(8, 12)),
                classical_register_count: spec_u32_from_le_bytes(s.subrange(12, 16)),
                instruction_count: spec_u64_from_le_bytes(s.subrange(16, 24)),
                constant_pool_offset: spec_u64_from_le_bytes(s.subrange(24, 32)),
                instruction_stream_offset: spec_u64_from_le_bytes(s.subrange(32, 40)),
                constant_pool_size: spec_u64_from_le_bytes(s.subrange(40, 48)),
                instruction_stream_size: spec_u64_from_le_bytes(s.subrange(48, 56)),
                header_checksum: spec_u64_from_le_bytes(s.subrange(56, 64)),
            },
        )
    }
}

impl Header {
    /// Build a fresh header for a producer: `version` is pinned to the
    /// supported constant, `flags` is zero, and `header_checksum` stays zero
    /// until serialization computes the real digest.
    pub fn new(
        logical_qubit_count: u32,
        classical_register_count: u32,
        instruction_count: u64,
        constant_pool_offset: u64,
        instruction_stream_offset: u64,
        constant_pool_size: u64,
        instruction_stream_size: u64,
    ) -> (h: Self)
        ensures
            h == (Header {
                version: QISA_VERSION,
                flags: 0,
                logical_qubit_count,
                classical_register_count,
                instruction_count,
                constant_pool_offset,
                instruction_stream_offset,
                constant_pool_size,
                instruction_stream_size,
                header_checksum: 0,
            }),
    {
        Self {
            version: QISA_VERSION,
            flags: 0,
            logical_qubit_count,
            classical_register_count,
            instruction_count,
            constant_pool_offset,
            instruction_stream_offset,
            constant_pool_size,
            instruction_stream_size,
            header_checksum: 0,
        }
    }

    /// Serialize this header into its exact 64-byte little-endian form,
    /// computing and embedding the checksum over the first 56 bytes. Never
    /// fails: every header value is serializable.
    pub fn serialize(&self) -> (buffer: [u8; QISA_HEADER_SIZE])
        ensures
            buffer@ == spec_serialize(*self),
    {
        let mut parts: Vec<u8> = Vec::new();
        let mut piece: Vec<u8> = u32_to_le_bytes(QISA_MAGIC_BYTES);
        parts.append(&mut piece);
        let mut piece: Vec<u8> = u16_to_le_bytes(self.version);
        parts.append(&mut piece);
        let mut piece: Vec<u8> = u16_to_le_bytes(self.flags);
        parts.append(&mut piece);
        let mut piece: Vec<u8> = u32_to_le_bytes(self.logical_qubit_count);
        parts.append(&mut piece);
        let mut piece: Vec<u8> = u32_to_le_bytes(self.classical_register_count);
        parts.append(&mut piece);
        let mut piece: Vec<u8> = u64_to_le_bytes(self.instruction_count);
        parts.append(&mut piece);
        let mut piece: Vec<u8> = u64_to_le_bytes(self.constant_pool_offset);
        parts.append(&mut piece);
        let mut piece: Vec<u8> = u64_to_le_bytes(self.instruction_stream_offset);
        parts.append(&mut piece);
        let mut piece: Vec<u8> = u64_to_le_bytes(self.constant_pool_size);
        parts.append(&mut piece);
        let mut piece: Vec<u8> = u64_to_le_bytes(self.instruction_stream_size);
        parts.append(&mut piece);
        assert(parts@ == spec_header_prefix(*self));
        let checksum: u64 = fnv1a_64(parts.as_slice());
        let mut piece: Vec<u8> = u64_to_le_bytes(checksum);
        parts.append(&mut piece);
        assert(parts@ == spec_serialize(*self));
        proof {
            lemma_auto_spec_u16_to_from_le_bytes();
            lemma_auto_spec_u32_to_from_le_bytes();
            lemma_auto_spec_u64_to_from_le_bytes();
            assert(parts@.len() == 64);
        }
        let ghost target: Seq<u8> = spec_serialize(*self);
        let mut buffer: [u8; QISA_HEADER_SIZE] = [0u8; QISA_HEADER_SIZE];
        let mut i: usize = 0;
        while i < 64
            invariant
                i <= 64,
                parts@ == target,
                parts@.len() == 64,
                forall|j: int| 0 <= j < i ==> buffer@[j] == parts@[j],
            decreases 64 - i,
        {
            buffer[i] = parts[i];
            i = i + 1;
        }
        proof {
            assert(buffer@ =~= target);
        }
        buffer
    }

    /// Parse and validate an untrusted byte buffer. The checks run in the
    /// fixed order that `spec_parse` spells out: a short input fails with
    /// `TooSmall`; wrong magic bytes fail with `InvalidMagic` before the
    /// checksum is even recomputed; a checksum disagreement fails with
    /// `ChecksumMismatch`; only then are the fields decoded, and the
    /// returned header carries the checksum value that was just validated.
    pub fn parse(bytes: &[u8]) -> (result: Result<Self, HeaderError>)
        ensures
            result == spec_parse(bytes@),
    {
        if bytes.len() < QISA_HEADER_SIZE {
            return Err(HeaderError::TooSmall);
        }
        let magic: u32 = u32_from_le_bytes(slice_subrange(bytes, 0, 4));
        if magic != QISA_MAGIC_BYTES {
            return Err(HeaderError::InvalidMagic);
        }
        let stored_checksum: u64 = u64_from_le_bytes(slice_subrange(bytes, 56, 64));
        let computed_checksum: u64 = fnv1a_64(slice_subrange(bytes, 0, 56));
        if stored_checksum != computed_checksum {
            return Err(HeaderError::ChecksumMismatch);
        }
        Ok(
            Self {
                version: u16_from_le_bytes(slice_subrange(bytes, 4, 6)),
                flags: u16_from_le_bytes(slice_subrange(bytes, 6, 8)),
                logical_qubit_count: u32_from_le_bytes(slice_subrange(bytes, 8, 12)),
                classical_register_count: u32_from_le_bytes(slice_subrange(bytes, 12, 16)),
                instruction_count: u64_from_le_bytes(slice_subrange(bytes, 16, 24)),
                constant_pool_offset: u64_from_le_bytes(slice_subrange(bytes, 24, 32)),
                instruction_stream_offset: u64_from_le_bytes(slice_subrange(bytes, 32, 40)),
                constant_pool_size: u64_from_le_bytes(slice_subrange(bytes, 40, 48)),
                instruction_stream_size: u64_from_le_bytes(slice_subrange(bytes, 48, 56)),
                header_checksum: stored_checksum,
            },
        )
    }
}

/// Parsing reads only the first `QISA_HEADER_SIZE` bytes: whatever payload
/// follows the header in a container file, the result is the same as for
/// the bare header prefix.
pub proof fn lemma_parse_reads_only_header_prefix(s: Seq<u8>)
    requires
        s.len() >= QISA_HEADER_SIZE,
    ensures
        spec_parse(s) == spec_parse(s.take(QISA_HEADER_SIZE as int)),
{
    let p = s.take(QISA_HEADER_SIZE as int);
    assert(p.subrange(0, 4) =~= s.subrange(0, 4));
    assert(p.subrange(56, 64) =~= s.subrange(56, 64));
    assert(p.subrange(0, 56) =~= s.subrange(0, 56));
    assert(p.subrange(4, 6) =~= s.subrange(4, 6));
    assert(p.subrange(6, 8) =~= s.subrange(6, 8));
    assert(p.subrange(8, 12) =~= s.subrange(8, 12));
    assert(p.subrange(12, 16) =~= s.subrange(12, 16));
    assert(p.subrange(16, 24) =~= s.subrange(16, 24));
    assert(p.subrange(24, 32) =~= s.subrange(24, 32));
    assert(p.subrange(32, 40) =~= s.subrange(32, 40));
    assert(p.subrange(40, 48) =~= s.subrange(40, 48));
    assert(p.subrange(48, 56) =~= s.subrange(48, 56));
}

/// Where each layout range lands inside the serialized buffer: the byte
/// slice of every field, of the magic, and of the checksum window.
proof fn lemma_serialize_slices(h: Header)
    ensures
        spec_serialize(h).len() == 64,
        spec_serialize(h).subrange(0, 4) == spec_u32_to_le_bytes(QISA_MAGIC_BYTES),
        spec_serialize(h).subrange(4, 6) == spec_u16_to_le_bytes(h.version),
        spec_serialize(h).subrange(6, 8) == spec_u16_to_le_bytes(h.flags),
        spec_serialize(h).subrange(8, 12) == spec_u32_to_le_bytes(h.logical_qubit_count),
        spec_serialize(h).subrange(12, 16) == spec_u32_to_le_bytes(h.classical_register_count),
        spec_serialize(h).subrange(16, 24) == spec_u64_to_le_bytes(h.instruction_count),
        spec_serialize(h).subrange(24, 32) == spec_u64_to_le_bytes(h.constant_pool_offset),
        spec_serialize(h).subrange(32, 40) == spec_u64_to_le_bytes(h.instruction_stream_offset),
        spec_serialize(h).subrange(40, 48) == spec_u64_to_le_bytes(h.constant_pool_size),
        spec_serialize(h).subrange(48, 56) == spec_u64_to_le_bytes(h.instruction_stream_size),
        spec_serialize(h).subrange(0, 56) == spec_header_prefix(h),
        spec_serialize(h).subrange(56, 64) == spec_u64_to_le_bytes(spec_checksum_of(h)),
{
    lemma_auto_spec_u16_to_from_le_bytes();
    lemma_auto_spec_u32_to_from_le_bytes();
    lemma_auto_spec_u64_to_from_le_bytes();
    let s = spec_serialize(h);
    assert(s.subrange(0, 4) =~= spec_u32_to_le_bytes(QISA_MAGIC_BYTES));
    assert(s.subrange(4, 6) =~= spec_u16_to_le_bytes(h.version));
    assert(s.subrange(6, 8) =~= spec_u16_to_le_bytes(h.flags));
    assert(s.subrange(8, 12) =~= spec_u32_to_le_bytes(h.logical_qubit_count));
    assert(s.subrange(12, 16) =~= spec_u32_to_le_bytes(h.classical_register_count));
    assert(s.subrange(16, 24) =~= spec_u64_to_le_bytes(h.instruction_count));
    assert(s.subrange(24, 32) =~= spec_u64_to_le_bytes(h.constant_pool_offset));
    assert(s.subrange(32, 40) =~= spec_u64_to_le_bytes(h.instruction_stream_offset));
    assert(s.subrange(40, 48) =~= spec_u64_to_le_bytes(h.constant_pool_size));
    assert(s.subrange(48, 56) =~= spec_u64_to_le_bytes(h.instruction_stream_size));
    assert(s.subrange(0, 56) =~= spec_header_prefix(h));
    assert(s.subrange(56, 64) =~= spec_u64_to_le_bytes(spec_checksum_of(h)));
}

/// Round-trip: parsing a serialized header always succeeds and recovers
/// every field as it was, except that `header_checksum` now carries the
/// digest computed during serialization (whatever it held before, the
/// constructor's zero included).
pub proof fn lemma_serialize_parse_round_trip(h: Header)
    ensures
        spec_parse(spec_serialize(h)) == Ok::<Header, HeaderError>(
            Header { header_checksum: spec_checksum_of(h), ..h },
        ),
{
    let s = spec_serialize(h);
    lemma_serialize_slices(h);
    lemma_auto_spec_u16_to_from_le_bytes();
    lemma_auto_spec_u32_to_from_le_bytes();
    lemma_auto_spec_u64_to_from_le_bytes();
    assert(spec_u32_from_le_bytes(s.subrange(0, 4)) == QISA_MAGIC_BYTES);
    assert(spec_u64_from_le_bytes(s.subrange(56, 64)) == spec_checksum_of(h));
    assert(spec_fnv1a_64(s.subrange(0, 56)) == spec_checksum_of(h));
}

/// Determinism: the serialized bytes, and with them the stored checksum,
/// are a function of the nine layout fields alone. Two headers that agree
/// on those fields serialize byte-identically, even if the transient
/// `header_checksum` values they carry differ.
pub proof fn lemma_serialize_deterministic(h1: Header, h2: Header)
    requires
        h1.version == h2.version,
        h1.flags == h2.flags,
        h1.logical_qubit_count == h2.logical_qubit_count,
        h1.classical_register_count == h2.classical_register_count,
        h1.instruction_count == h2.instruction_count,
        h1.constant_pool_offset == h2.constant_pool_offset,
        h1.instruction_stream_offset == h2.instruction_stream_offset,
        h1.constant_pool_size == h2.constant_pool_size,
        h1.instruction_stream_size == h2.instruction_stream_size,
    ensures
        spec_serialize(h1) == spec_serialize(h2),
        spec_checksum_of(h1) == spec_checksum_of(h2),
{
    assert(spec_header_prefix(h1) == spec_header_prefix(h2));
}

/// Length boundary: any input shorter than the fixed header size is
/// rejected as `TooSmall` before anything else is looked at.
pub proof fn lemma_short_input_rejected(s: Seq<u8>)
    requires
        s.len() < QISA_HEADER_SIZE,
    ensures
        spec_parse(s) == Err::<Header, HeaderError>(HeaderError::TooSmall),
{
}

/// Magic precedence: wrong magic bytes fail the parse with `InvalidMagic`,
/// whatever the rest of the buffer holds — in particular even when the
/// stored checksum field happens to validate over the corrupted bytes.
pub proof fn lemma_magic_checked_before_checksum(s: Seq<u8>)
    requires
        s.len() >= QISA_HEADER_SIZE,
        spec_u32_from_le_bytes(s.subrange(0, 4)) != QISA_MAGIC_BYTES,
    ensures
        spec_parse(s) == Err::<Header, HeaderError>(HeaderError::InvalidMagic),
{
}

/// Corrupting any single byte of the magic range `[0:4)` of a serialized
/// header is caught as `InvalidMagic`: the four magic bytes decode to the
/// magic constant only when they are exactly right.
pub proof fn lemma_magic_corruption_detected(h: Header, t: Seq<u8>, i: int)
    requires
        t.len() == 64,
        0 <= i < 4,
        t[i] != spec_serialize(h)[i],
        forall|j: int| 0 <= j < 64 && j != i ==> t[j] == spec_serialize(h)[j],
    ensures
        spec_parse(t) == Err::<Header, HeaderError>(HeaderError::InvalidMagic),
{
    let s = spec_serialize(h);
    lemma_serialize_slices(h);
    lemma_auto_spec_u32_to_from_le_bytes();
    if spec_u32_from_le_bytes(t.subrange(0, 4)) == QISA_MAGIC_BYTES {
        // Decoding is injective on 4-byte sequences: re-encoding the decoded
        // value gives the sequence back, so the corrupted magic range would
        // have to equal the intact one — but it differs at position i.
        assert(spec_u32_to_le_bytes(spec_u32_from_le_bytes(t.subrange(0, 4)))
            == t.subrange(0, 4));
        assert(spec_u32_to_le_bytes(spec_u32_from_le_bytes(s.subrange(0, 4)))
            == s.subrange(0, 4));
        assert(spec_u32_from_le_bytes(s.subrange(0, 4)) == QISA_MAGIC_BYTES);
        assert(t.subrange(0, 4) == s.subrange(0, 4));
        assert(t.subrange(0, 4)[i] == t[i]);
        assert(false);
    }
}

/// Checksum sensitivity: corrupting any single byte — so in particular
/// flipping any single bit — in bytes `[4:56)` of a serialized header,
/// without recomputing the stored checksum, is caught as
/// `ChecksumMismatch`. (Corruption in `[0:4)` is caught earlier, as
/// `InvalidMagic`; see `lemma_magic_corruption_detected`.)
pub proof fn lemma_checksum_detects_corruption(h: Header, t: Seq<u8>, i: int)
    requires
        t.len() == 64,
        4 <= i < 56,
        t[i] != spec_serialize(h)[i],
        forall|j: int| 0 <= j < 64 && j != i ==> t[j] == spec_serialize(h)[j],
    ensures
        spec_parse(t) == Err::<Header, HeaderError>(HeaderError::ChecksumMismatch),
{
    let s = spec_serialize(h);
    lemma_serialize_slices(h);
    lemma_auto_spec_u64_to_from_le_bytes();
    // The magic range is untouched, so the magic check still passes.
    assert(t.subrange(0, 4) =~= s.subrange(0, 4));
    assert(spec_u32_from_le_bytes(t.subrange(0, 4)) == QISA_MAGIC_BYTES) by {
        lemma_auto_spec_u32_to_from_le_bytes();
    }
    // The stored checksum is untouched and still matches the *original*
    // covered bytes...
    assert(t.subrange(56, 64) =~= s.subrange(56, 64));
    assert(spec_u64_from_le_bytes(t.subrange(56, 64)) == spec_checksum_of(h));
    // ...but the covered bytes now differ at position i, so their digest
    // differs from the stored one.
    assert(t.subrange(0, 56)[i] != s.subrange(0, 56)[i]);
    crate::checksum::lemma_fnv1a_single_byte_sensitive(
        s.subrange(0, 56),
        t.subrange(0, 56),
        i,
    );
    assert(spec_fnv1a_64(s.subrange(0, 56)) == spec_checksum_of(h));
}

/// Corrupting any single byte of the stored checksum range `[56:64)` of a
/// serialized header is caught as `ChecksumMismatch`: the covered bytes
/// still digest to the original checksum, which the corrupted stored value
/// can no longer equal.
pub proof fn lemma_stored_checksum_corruption_detected(h: Header, t: Seq<u8>, i: int)
    requires
        t.len() == 64,
        56 <= i < 64,
        t[i] != spec_serialize(h)[i],
        forall|j: int| 0 <= j < 64 && j != i ==> t[j] == spec_serialize(h)[j],
    ensures
        spec_parse(t) == Err::<Header, HeaderError>(HeaderError::ChecksumMismatch),
{
    let s = spec_serialize(h);
    lemma_serialize_slices(h);
    lemma_auto_spec_u64_to_from_le_bytes();
    // The magic range and the covered window are untouched.
    assert(t.subrange(0, 4) =~= s.subrange(0, 4));
    assert(spec_u32_from_le_bytes(t.subrange(0, 4)) == QISA_MAGIC_BYTES) by {
        lemma_auto_spec_u32_to_from_le_bytes();
    }
    assert(t.subrange(0, 56) =~= s.subrange(0, 56));
    assert(spec_fnv1a_64(t.subrange(0, 56)) == spec_checksum_of(h));
    // The stored checksum bytes differ at position i, and decoding is
    // injective on 8-byte sequences, so the stored value differs from the
    // recomputed one.
    if spec_u64_from_le_bytes(t.subrange(56, 64)) == spec_checksum_of(h) {
        assert(spec_u64_to_le_bytes(spec_u64_from_le_bytes(t.subrange(56, 64)))
            == t.subrange(56, 64));
        assert(spec_u64_from_le_bytes(s.subrange(56, 64)) == spec_checksum_of(h));
        assert(spec_u64_to_le_bytes(spec_u64_from_le_bytes(s.subrange(56, 64)))
            == s.subrange(56, 64));
        assert(t.subrange(56, 64) == s.subrange(56, 64));
        assert(t.subrange(56, 64)[i - 56] == t[i]);
        assert(false);
    }
}

/// No single-byte corruption is silent: a 64-byte buffer that differs from
/// a serialized header in exactly one byte never parses. The error names
/// the first check that the corruption reaches — `InvalidMagic` for the
/// magic range, `ChecksumMismatch` everywhere else.
pub proof fn lemma_single_byte_corruption_never_parses(h: Header, t: Seq<u8>, i: int)
    requires
        t.len() == 64,
        0 <= i < 64,
        t[i] != spec_serialize(h)[i],
        forall|j: int| 0 <= j < 64 && j != i ==> t[j] == spec_serialize(h)[j],
    ensures
        spec_parse(t) == Err::<Header, HeaderError>(
            if i < 4 {
                HeaderError::InvalidMagic
            } else {
                HeaderError::ChecksumMismatch
            },
        ),
{
    if i < 4 {
        lemma_magic_corruption_detected(h, t, i);
    } else if i < 56 {
        lemma_checksum_detects_corruption(h, t, i);
    } else {
        lemma_stored_checksum_corruption_detected(h, t, i);
    }
}

} // verus!
