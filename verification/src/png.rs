//! Structural validation of PNG screenshot evidence.
//!
//! The acceptance driver only trusts a screenshot whose chunk sequence is
//! complete and CRC-checked: it starts with the signature and an `IHDR`,
//! holds at least one `IDAT`, and ends exactly at an empty `IEND`.

use vstd::prelude::*;

verus! {

/// The polynomial of the reflected CRC-32 used by PNG.
pub const CRC32_POLY: u32 = 0xedb8_8320u32;

/// One bit step of the reflected CRC-32 register.
pub open spec fn crc_bit_step(c: u32) -> u32 {
    if c & 1 == 1 {
        (c >> 1u32) ^ CRC32_POLY
    } else {
        c >> 1u32
    }
}

/// `n` bit steps of the CRC-32 register.
pub open spec fn crc_bits(c: u32, n: nat) -> u32
    decreases n,
{
    if n == 0 {
        c
    } else {
        crc_bit_step(crc_bits(c, (n - 1) as nat))
    }
}

/// The register after feeding one byte.
pub open spec fn crc_byte(c: u32, b: u8) -> u32 {
    crc_bits(c ^ (b as u32), 8)
}

/// The register after feeding every byte of `s` in order, from `c`.
pub open spec fn crc_update(c: u32, s: Seq<u8>) -> u32
    decreases s.len(),
{
    if s.len() == 0 {
        c
    } else {
        crc_byte(crc_update(c, s.drop_last()), s.last())
    }
}

/// The PNG CRC-32 of `s`: initial register all ones, final complement.
pub open spec fn spec_png_crc32(s: Seq<u8>) -> u32 {
    !crc_update(0xffff_ffffu32, s)
}

proof fn lemma_mask_step(c: u32)
    ensures
        (c >> 1u32) ^ (0xedb8_8320u32 & (0u32.wrapping_sub(c & 1u32))) == crc_bit_step(c),
{
    let m = c & 1u32;
    assert(m == 0u32 || m == 1u32) by (bit_vector)
        requires
            m == c & 1u32,
    ;
    if m == 1u32 {
        assert(0u32.wrapping_sub(1u32) == 0xffff_ffffu32);
        assert((c >> 1u32) ^ (0xedb8_8320u32 & 0xffff_ffffu32) == (c >> 1u32) ^ 0xedb8_8320u32)
            by (bit_vector);
    } else {
        assert(0u32.wrapping_sub(0u32) == 0u32);
        assert((c >> 1u32) ^ (0xedb8_8320u32 & 0u32) == (c >> 1u32)) by (bit_vector);
    }
}

/// CRC-32 of `bytes[start..end]`, as PNG computes it over a chunk's type
/// and data.
pub fn png_crc32_range(bytes: &[u8], start: usize, end: usize) -> (crc: u32)
    requires
        start <= end <= bytes@.len(),
    ensures
        crc == spec_png_crc32(bytes@.subrange(start as int, end as int)),
{
    let mut crc: u32 = u32::MAX;
    let mut i = start;
    while i < end
        invariant
            start <= i <= end <= bytes@.len(),
            crc == crc_update(0xffff_ffffu32, bytes@.subrange(start as int, i as int)),
        decreases end - i,
    {
        let ghost before = crc;
        crc ^= bytes[i] as u32;
        let ghost c0 = crc;
        let mut k: u32 = 0;
        while k < 8
            invariant
                k <= 8,
                crc == crc_bits(c0, k as nat),
            decreases 8 - k,
        {
            proof {
                lemma_mask_step(crc);
            }
            let mask = 0u32.wrapping_sub(crc & 1);
            crc = (crc >> 1) ^ (CRC32_POLY & mask);
            k += 1;
        }
        proof {
            let s = bytes@.subrange(start as int, i + 1);
            assert(s.drop_last() =~= bytes@.subrange(start as int, i as int));
            assert(s.last() == bytes@[i as int]);
        }
        i += 1;
    }
    !crc
}

/// CRC-32 of a whole byte string, as PNG computes it.
pub fn png_crc32(bytes: &[u8]) -> (crc: u32)
    ensures
        crc == spec_png_crc32(bytes@),
{
    let crc = png_crc32_range(bytes, 0, bytes.len());
    assert(bytes@.subrange(0, bytes@.len() as int) =~= bytes@);
    crc
}


/// Why a byte string is not a complete, CRC-checked PNG.
#[derive(Debug, Clone, Copy, PartialEq, Eq)]
pub enum PngStructureError {
    /// The eight-byte PNG signature is missing.
    NotPng,
    /// A chunk header offset does not fit in `usize`.
    ChunkOffsetOverflow,
    /// Fewer than eight bytes remain for a chunk header.
    TruncatedChunkHeader,
    /// A chunk's data length does not fit in `usize`.
    ChunkLengthOverflow,
    /// A chunk's CRC offset does not fit in `usize`.
    CrcOffsetOverflow,
    /// A chunk's data or CRC runs past the end of the bytes.
    TruncatedChunk,
    /// A chunk's stored CRC differs from the CRC of its type and data.
    CorruptChunkCrc,
    /// `IHDR` is not the first chunk, is repeated, or is not 13 bytes.
    InvalidIhdr,
    /// `IHDR` declares a zero width or height.
    ZeroDimensions,
    /// `IEND` is not empty, precedes `IHDR` or `IDAT`, or is not last.
    InvalidTerminalIend,
    /// A chunk other than `IDAT`/`IEND` precedes `IHDR`.
    MissingLeadingIhdr,
    /// The bytes end without an `IEND` chunk.
    MissingTerminalIend,
}

/// The eight-byte PNG signature.
pub open spec fn png_signature() -> Seq<u8> {
    seq![0x89u8, 0x50u8, 0x4eu8, 0x47u8, 0x0du8, 0x0au8, 0x1au8, 0x0au8]
}

/// Big-endian `u32` at `b[i..i + 4]`.
pub open spec fn be_u32(b: Seq<u8>, i: int) -> u32 {
    ((b[i] as int) * 0x100_0000 + (b[i + 1] as int) * 0x1_0000 + (b[i + 2] as int) * 0x100
        + (b[i + 3] as int)) as u32
}

/// Whether `b[i..i + 4]` spells the four ASCII letters `t`.
pub open spec fn chunk_type_is(b: Seq<u8>, i: int, t: Seq<u8>) -> bool {
    b.subrange(i, i + 4) == t
}

pub open spec fn tag_ihdr() -> Seq<u8> {
    seq![0x49u8, 0x48u8, 0x44u8, 0x52u8]
}

pub open spec fn tag_idat() -> Seq<u8> {
    seq![0x49u8, 0x44u8, 0x41u8, 0x54u8]
}

pub open spec fn tag_iend() -> Seq<u8> {
    seq![0x49u8, 0x45u8, 0x4eu8, 0x44u8]
}

/// The result of scanning the chunk sequence from `offset`, having seen the
/// dimensions `dims` (from `IHDR`) and whether an `IDAT` was seen.
pub open spec fn png_scan(b: Seq<u8>, offset: int, dims: Option<(u32, u32)>, saw_idat: bool) -> Result<
    (u32, u32),
    PngStructureError,
>
    decreases b.len() - offset,
{
    if offset < 0 || offset >= b.len() {
        Err(PngStructureError::MissingTerminalIend)
    } else {
        let header_end = offset + 8;
        if header_end > usize::MAX {
            Err(PngStructureError::ChunkOffsetOverflow)
        } else if header_end > b.len() {
            Err(PngStructureError::TruncatedChunkHeader)
        } else {
            let data_len = be_u32(b, offset) as int;
            let data_end = header_end + data_len;
            let chunk_end = data_end + 4;
            if data_end > usize::MAX {
                Err(PngStructureError::ChunkLengthOverflow)
            } else if chunk_end > usize::MAX {
                Err(PngStructureError::CrcOffsetOverflow)
            } else if chunk_end > b.len() {
                Err(PngStructureError::TruncatedChunk)
            } else if spec_png_crc32(b.subrange(offset + 4, data_end)) != be_u32(b, data_end) {
                Err(PngStructureError::CorruptChunkCrc)
            } else if chunk_type_is(b, offset + 4, tag_ihdr()) {
                if offset != 8 || data_len != 13 || dims is Some {
                    Err(PngStructureError::InvalidIhdr)
                } else {
                    let width = be_u32(b, header_end);
                    let height = be_u32(b, header_end + 4);
                    if width == 0 || height == 0 {
                        Err(PngStructureError::ZeroDimensions)
                    } else {
                        png_scan(b, chunk_end, Some((width, height)), saw_idat)
                    }
                }
            } else if chunk_type_is(b, offset + 4, tag_idat()) {
                png_scan(b, chunk_end, dims, true)
            } else if chunk_type_is(b, offset + 4, tag_iend()) {
                if data_len != 0 || dims is None || !saw_idat || chunk_end != b.len() {
                    Err(PngStructureError::InvalidTerminalIend)
                } else {
                    Ok(dims.unwrap())
                }
            } else if dims is None {
                Err(PngStructureError::MissingLeadingIhdr)
            } else {
                png_scan(b, chunk_end, dims, saw_idat)
            }
        }
    }
}

/// The structural verdict on a screenshot's bytes: its `(width, height)`
/// when the bytes are a complete, CRC-checked PNG.
pub open spec fn spec_png_structure(b: Seq<u8>) -> Result<(u32, u32), PngStructureError> {
    if b.len() < 8 || b.subrange(0, 8) != png_signature() {
        Err(PngStructureError::NotPng)
    } else {
        png_scan(b, 8, None, false)
    }
}

fn read_be_u32(bytes: &[u8], i: usize) -> (v: u32)
    requires
        i + 4 <= bytes@.len(),
    ensures
        v == be_u32(bytes@, i as int),
{
    let v = (bytes[i] as u32) * 0x100_0000 + (bytes[i + 1] as u32) * 0x1_0000
        + (bytes[i + 2] as u32) * 0x100 + (bytes[i + 3] as u32);
    v
}

fn tag_matches(bytes: &[u8], i: usize, t0: u8, t1: u8, t2: u8, t3: u8) -> (r: bool)
    requires
        i + 4 <= bytes@.len(),
    ensures
        r == (bytes@.subrange(i as int, i + 4) == seq![t0, t1, t2, t3]),
{
    let r = bytes[i] == t0 && bytes[i + 1] == t1 && bytes[i + 2] == t2 && bytes[i + 3] == t3;
    proof {
        let s = bytes@.subrange(i as int, i + 4);
        if r {
            assert(s =~= seq![t0, t1, t2, t3]);
        } else {
            if s == seq![t0, t1, t2, t3] {
                assert(s[0] == t0 && s[1] == t1 && s[2] == t2 && s[3] == t3);
            }
        }
    }
    r
}

/// Validates the chunk structure of PNG bytes and returns the `IHDR`
/// dimensions.
pub fn validate_png_structure(bytes: &[u8]) -> (r: Result<(u32, u32), PngStructureError>)
    ensures
        r == spec_png_structure(bytes@),
{
    let len = bytes.len();
    if len < 8 {
        return Err(PngStructureError::NotPng);
    }
    let sig_ok = bytes[0] == 0x89 && bytes[1] == 0x50 && bytes[2] == 0x4e && bytes[3] == 0x47
        && bytes[4] == 0x0d && bytes[5] == 0x0a && bytes[6] == 0x1a && bytes[7] == 0x0a;
    proof {
        let s = bytes@.subrange(0, 8);
        if sig_ok {
            assert(s =~= png_signature());
        } else if s == png_signature() {
            assert(s[0] == 0x89u8 && s[1] == 0x50u8 && s[2] == 0x4eu8 && s[3] == 0x47u8);
            assert(s[4] == 0x0du8 && s[5] == 0x0au8 && s[6] == 0x1au8 && s[7] == 0x0au8);
        }
    }
    if !sig_ok {
        return Err(PngStructureError::NotPng);
    }
    let mut offset: usize = 8;
    let mut dims: Option<(u32, u32)> = None;
    let mut saw_idat = false;
    while offset < len
        invariant
            len == bytes@.len(),
            8 <= offset,
            png_scan(bytes@, offset as int, dims, saw_idat) == spec_png_structure(bytes@),
        decreases len - offset,
    {
        let header_end = match offset.checked_add(8) {
            Some(v) => v,
            None => return Err(PngStructureError::ChunkOffsetOverflow),
        };
        if header_end > len {
            return Err(PngStructureError::TruncatedChunkHeader);
        }
        let data_len = read_be_u32(bytes, offset) as usize;
        let data_end = match header_end.checked_add(data_len) {
            Some(v) => v,
            None => return Err(PngStructureError::ChunkLengthOverflow),
        };
        let chunk_end = match data_end.checked_add(4) {
            Some(v) => v,
            None => return Err(PngStructureError::CrcOffsetOverflow),
        };
        if chunk_end > len {
            return Err(PngStructureError::TruncatedChunk);
        }
        let expected_crc = read_be_u32(bytes, data_end);
        let actual_crc = png_crc32_range(bytes, offset + 4, data_end);
        if actual_crc != expected_crc {
            return Err(PngStructureError::CorruptChunkCrc);
        }
        if tag_matches(bytes, offset + 4, 0x49, 0x48, 0x44, 0x52) {
            if offset != 8 || data_len != 13 || dims.is_some() {
                return Err(PngStructureError::InvalidIhdr);
            }
            let width = read_be_u32(bytes, header_end);
            let height = read_be_u32(bytes, header_end + 4);
            if width == 0 || height == 0 {
                return Err(PngStructureError::ZeroDimensions);
            }
            dims = Some((width, height));
        } else if tag_matches(bytes, offset + 4, 0x49, 0x44, 0x41, 0x54) {
            saw_idat = true;
        } else if tag_matches(bytes, offset + 4, 0x49, 0x45, 0x4e, 0x44) {
            if data_len != 0 || dims.is_none() || !saw_idat || chunk_end != len {
                return Err(PngStructureError::InvalidTerminalIend);
            }
            return Ok(dims.unwrap());
        } else {
            if dims.is_none() {
                return Err(PngStructureError::MissingLeadingIhdr);
            }
        }
        offset = chunk_end;
    }
    Err(PngStructureError::MissingTerminalIend)
}


/// The smallest screenshot width accepted as evidence.
pub const MIN_SCREENSHOT_WIDTH: u32 = 640;
/// The smallest screenshot height accepted as evidence.
pub const MIN_SCREENSHOT_HEIGHT: u32 = 360;
/// The largest screenshot, in bytes, accepted as evidence.
pub const MAX_SCREENSHOT_BYTES: u64 = 16777216;

/// A screenshot accepted as evidence.
#[derive(Debug, Clone, Copy, PartialEq, Eq, Structural)]
pub struct PngEvidence {
    pub width: u32,
    pub height: u32,
    pub bytes: u64,
}

/// Why a screenshot is not accepted as evidence.
#[derive(Debug, Clone, Copy, PartialEq, Eq)]
pub enum PngEvidenceError {
    /// The bytes are not a complete, CRC-checked PNG.
    Structure(PngStructureError),
    /// The image is narrower or lower than the minimum.
    TooSmall { width: u32, height: u32 },
    /// The file is empty or larger than the maximum.
    InvalidSize { bytes: u64 },
}

/// What a screenshot's bytes are as evidence: its structure first, then its
/// dimensions, then its size.
pub open spec fn spec_png_evidence(b: Seq<u8>) -> Result<PngEvidence, PngEvidenceError> {
    match spec_png_structure(b) {
        Err(e) => Err(PngEvidenceError::Structure(e)),
        Ok((w, h)) => if w < MIN_SCREENSHOT_WIDTH || h < MIN_SCREENSHOT_HEIGHT {
            Err(PngEvidenceError::TooSmall { width: w, height: h })
        } else if b.len() == 0 || b.len() > MAX_SCREENSHOT_BYTES {
            Err(PngEvidenceError::InvalidSize { bytes: b.len() as u64 })
        } else {
            Ok(PngEvidence { width: w, height: h, bytes: b.len() as u64 })
        },
    }
}

/// Checks the bytes of a screenshot that was read from disk.
pub fn png_evidence(bytes: &[u8]) -> (r: Result<PngEvidence, PngEvidenceError>)
    ensures
        r == spec_png_evidence(bytes@),
{
    let (width, height) = match validate_png_structure(bytes) {
        Ok(d) => d,
        Err(e) => return Err(PngEvidenceError::Structure(e)),
    };
    let byte_count = bytes.len() as u64;
    if width < MIN_SCREENSHOT_WIDTH || height < MIN_SCREENSHOT_HEIGHT {
        return Err(PngEvidenceError::TooSmall { width, height });
    }
    if byte_count == 0 || byte_count > MAX_SCREENSHOT_BYTES {
        return Err(PngEvidenceError::InvalidSize { bytes: byte_count });
    }
    Ok(PngEvidence { width, height, bytes: byte_count })
}

} // verus!
