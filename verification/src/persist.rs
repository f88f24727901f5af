//! The persisted form of the grid: a 4-byte big-endian voxel count, then the
//! voxel bytes, the whole gzip-compressed.

use flate2::read::GzDecoder;
use flate2::write::GzEncoder;
use flate2::Compression;
use std::io::{Read, Write};
use vstd::prelude::*;

verus! {

/// Why the grid could not be brought to or from its persisted form.
#[derive(Clone, Copy, Debug, PartialEq, Eq, Structural)]
pub enum PersistError {
    /// The compressor reported an error.
    Compress,
    /// The bytes are not a gzip stream, or the stream is damaged.
    Decompress,
    /// The decompressed bytes are shorter than the 4-byte header.
    Truncated,
    /// The voxel bytes are not as many as the grid has voxels.
    SizeMismatch,
}

/// `std::io::Error`, carried as it comes and never opened.
#[verifier::external_type_specification]
#[verifier::external_body]
pub struct ExIoError(std::io::Error);

/// What the encoder of `flate2` gives for `data` at the default compression
/// level: the gzip stream that it writes, or nothing where it reports an
/// error.
pub uninterp spec fn gzip_of(data: Seq<u8>) -> Option<Seq<u8>>;

/// What the decoder of `flate2` reads from `blob`: the bytes of its first
/// gzip member, or nothing where it reports an error.
pub uninterp spec fn gunzip_of(blob: Seq<u8>) -> Option<Seq<u8>>;

/// `flate2::write::GzEncoder` over a `Vec`, at `Compression::default()`:
/// `new`, one `write_all` of `data`, `finish`. The outcome is the one named
/// `gzip_of(data)`: the stream written, or an error. A stream that it
/// writes is one that the decoder reads back as `data`: that compression
/// loses nothing is what the format is for, and is believed here, not
/// proved. Success itself is not claimed.
#[verifier::external_body]
fn gzip_compress(data: &[u8]) -> (r: Result<Vec<u8>, std::io::Error>)
    ensures
        match r {
            Ok(blob) => gzip_of(data@) == Some(blob@) && gunzip_of(blob@) == Some(data@),
            Err(_) => gzip_of(data@) is None,
        },
{
    let mut gz = GzEncoder::new(Vec::new(), Compression::default());
    gz.write_all(data)?;
    gz.finish()
}

/// `flate2::read::GzDecoder` over a byte slice, read to its end. The
/// outcome is the one named `gunzip_of(blob)`: the decoded bytes, or an
/// error.
#[verifier::external_body]
fn gzip_decompress(blob: &[u8]) -> (r: Result<Vec<u8>, std::io::Error>)
    ensures
        match r {
            Ok(data) => gunzip_of(blob@) == Some(data@),
            Err(_) => gunzip_of(blob@) is None,
        },
{
    let mut gz = GzDecoder::new(blob);
    let mut data: Vec<u8> = Vec::new();
    gz.read_to_end(&mut data)?;
    Ok(data)
}

/// Length of the voxel-count header.
pub const HEADER_LEN: usize = 4;

/// The low 32 bits of `n` as four bytes, highest first.
pub open spec fn u32_be(n: nat) -> Seq<u8> {
    seq![
        (n / 0x100_0000 % 256) as u8,
        (n / 0x1_0000 % 256) as u8,
        (n / 0x100 % 256) as u8,
        (n % 256) as u8,
    ]
}

/// The uncompressed persisted form of `voxels`.
pub open spec fn framed(voxels: Seq<u8>) -> Seq<u8> {
    u32_be(voxels.len()) + voxels
}

/// The voxels in an uncompressed persisted form, for a grid of `volume`
/// voxels. The header's value is not read; the number of voxel bytes must be
/// the grid's.
pub open spec fn unframed(payload: Seq<u8>, volume: nat) -> Result<Seq<u8>, PersistError> {
    if payload.len() < HEADER_LEN {
        Err(PersistError::Truncated)
    } else if payload.len() - HEADER_LEN != volume {
        Err(PersistError::SizeMismatch)
    } else {
        Ok(payload.subrange(HEADER_LEN as int, payload.len() as int))
    }
}

/// What decoding `blob` gives for a grid of `volume` voxels.
pub open spec fn decoded(blob: Seq<u8>, volume: nat) -> Result<Seq<u8>, PersistError> {
    match gunzip_of(blob) {
        Some(payload) => unframed(payload, volume),
        None => Err(PersistError::Decompress),
    }
}

/// True when `blob` is the compressed persisted form that is written for
/// `voxels`: the stream that the encoder gives for the framed voxels, and a
/// stream from which the decoder gives the framed voxels back.
pub open spec fn encodes(blob: Seq<u8>, voxels: Seq<u8>) -> bool {
    gzip_of(framed(voxels)) == Some(blob) && gunzip_of(blob) == Some(framed(voxels))
}

/// What encoding `voxels` gives: the compressed persisted form, or the
/// error where the compressor gives none.
pub open spec fn encoded(voxels: Seq<u8>) -> Result<Seq<u8>, PersistError> {
    match gzip_of(framed(voxels)) {
        Some(blob) => Ok(blob),
        None => Err(PersistError::Compress),
    }
}

/// Puts the voxel-count header before the voxels.
pub fn frame(voxels: &[u8]) -> (payload: Vec<u8>)
    ensures
        payload@ == framed(voxels@),
{
    let n: usize = voxels.len();
    let b0: u8 = ((n >> 24) & 0xff) as u8;
    let b1: u8 = ((n >> 16) & 0xff) as u8;
    let b2: u8 = ((n >> 8) & 0xff) as u8;
    let b3: u8 = (n & 0xff) as u8;
    assert(b0 == n / 0x100_0000 % 256 && b1 == n / 0x1_0000 % 256 && b2 == n / 0x100 % 256 && b3
        == n % 256) by (bit_vector)
        requires
            b0 == ((n >> 24) & 0xff) as u8,
            b1 == ((n >> 16) & 0xff) as u8,
            b2 == ((n >> 8) & 0xff) as u8,
            b3 == (n & 0xff) as u8,
    ;
    let mut payload: Vec<u8> = Vec::new();
    payload.push(b0);
    payload.push(b1);
    payload.push(b2);
    payload.push(b3);
    payload.extend_from_slice(voxels);
    assert(payload@ =~= framed(voxels@));
    payload
}

/// Strips the header and checks the number of voxel bytes against the
/// grid's volume.
pub fn unframe(payload: Vec<u8>, volume: usize) -> (r: Result<Vec<u8>, PersistError>)
    ensures
        match r {
            Ok(voxels) => unframed(payload@, volume as nat) == Ok::<Seq<u8>, PersistError>(
                voxels@,
            ),
            Err(e) => unframed(payload@, volume as nat) == Err::<Seq<u8>, PersistError>(e),
        },
{
    if payload.len() < HEADER_LEN {
        return Err(PersistError::Truncated);
    }
    if payload.len() - HEADER_LEN != volume {
        return Err(PersistError::SizeMismatch);
    }
    let mut payload = payload;
    let voxels = payload.split_off(HEADER_LEN);
    Ok(voxels)
}

/// What `encode` returns for each outcome of the compressor.
pub fn compressed(outcome: Result<Vec<u8>, std::io::Error>) -> (r: Result<Vec<u8>, PersistError>)
    ensures
        match outcome {
            Ok(blob) => r matches Ok(b) && b@ == blob@,
            Err(_) => r == Err::<Vec<u8>, PersistError>(PersistError::Compress),
        },
{
    match outcome {
        Ok(blob) => Ok(blob),
        Err(_) => Err(PersistError::Compress),
    }
}

/// Compresses the persisted form of `voxels`: the stream that the
/// compressor gives for the framed voxels, or `Compress` exactly where it
/// gives none.
pub fn encode(voxels: &[u8]) -> (r: Result<Vec<u8>, PersistError>)
    ensures
        match r {
            Ok(blob) => encoded(voxels@) == Ok::<Seq<u8>, PersistError>(blob@) && encodes(
                blob@,
                voxels@,
            ),
            Err(e) => encoded(voxels@) == Err::<Seq<u8>, PersistError>(e),
        },
{
    let payload = frame(voxels);
    compressed(gzip_compress(payload.as_slice()))
}

/// Decompresses `blob`.
pub fn decompress(blob: &[u8]) -> (r: Result<Vec<u8>, PersistError>)
    ensures
        match r {
            Ok(payload) => gunzip_of(blob@) == Some(payload@),
            Err(e) => gunzip_of(blob@) is None && e == PersistError::Decompress,
        },
{
    match gzip_decompress(blob) {
        Ok(payload) => Ok(payload),
        Err(_) => Err(PersistError::Decompress),
    }
}

/// Decodes `blob` for a grid of `volume` voxels.
pub fn decode(blob: &[u8], volume: usize) -> (r: Result<Vec<u8>, PersistError>)
    ensures
        match r {
            Ok(voxels) => decoded(blob@, volume as nat) == Ok::<Seq<u8>, PersistError>(voxels@),
            Err(e) => decoded(blob@, volume as nat) == Err::<Seq<u8>, PersistError>(e),
        },
{
    match decompress(blob) {
        Ok(payload) => unframe(payload, volume),
        Err(e) => Err(e),
    }
}

/// Framing loses nothing: the voxels come back out of their own persisted
/// form, for a grid of their size.
pub proof fn lemma_frame_round_trip(voxels: Seq<u8>)
    ensures
        unframed(framed(voxels), voxels.len()) == Ok::<Seq<u8>, PersistError>(voxels),
{
    assert(framed(voxels).subrange(HEADER_LEN as int, framed(voxels).len() as int) =~= voxels);
}

/// What is written for `voxels` decompresses to the 4-byte count followed
/// by exactly the voxels.
pub proof fn lemma_encoded_content(voxels: Seq<u8>, blob: Seq<u8>)
    requires
        encodes(blob, voxels),
    ensures
        gunzip_of(blob) matches Some(payload) && payload.len() == HEADER_LEN + voxels.len()
            && payload.subrange(0, HEADER_LEN as int) == u32_be(voxels.len()) && payload.subrange(
            HEADER_LEN as int,
            payload.len() as int,
        ) == voxels,
{
    let payload = framed(voxels);
    assert(payload.subrange(0, HEADER_LEN as int) =~= u32_be(voxels.len()));
    assert(payload.subrange(HEADER_LEN as int, payload.len() as int) =~= voxels);
}

/// Encoding then decoding gives the voxels back: whatever encodes `voxels`
/// decodes to them, for a grid of as many voxels.
pub proof fn lemma_persist_round_trip(voxels: Seq<u8>, blob: Seq<u8>)
    requires
        encodes(blob, voxels),
    ensures
        decoded(blob, voxels.len()) == Ok::<Seq<u8>, PersistError>(voxels),
{
    lemma_frame_round_trip(voxels);
}

} // verus!
