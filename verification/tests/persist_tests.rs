use flate2::read::GzDecoder;
use flate2::write::GzEncoder;
use flate2::Compression;
use std::io::{Read, Write};
use voxel_server::persist::{
    compressed, decode, decompress, encode, frame, unframe, PersistError,
};

fn gunzip(blob: &[u8]) -> Vec<u8> {
    let mut out = Vec::new();
    GzDecoder::new(blob).read_to_end(&mut out).unwrap();
    out
}

fn gzip(data: &[u8]) -> Vec<u8> {
    let mut gz = GzEncoder::new(Vec::new(), Compression::default());
    gz.write_all(data).unwrap();
    gz.finish().unwrap()
}

#[test]
fn frame_puts_the_count_first() {
    assert_eq!(frame(&[9, 8, 7]), vec![0, 0, 0, 3, 9, 8, 7]);
    assert_eq!(frame(&[]), vec![0, 0, 0, 0]);
    let big = vec![1u8; 0x01_02_03];
    let framed = frame(&big);
    assert_eq!(&framed[..4], &[0, 1, 2, 3]);
    assert_eq!(&framed[4..], &big[..]);
}

#[test]
fn unframe_strips_the_header() {
    assert_eq!(unframe(vec![0, 0, 0, 3, 9, 8, 7], 3), Ok(vec![9, 8, 7]));
    assert_eq!(unframe(vec![0, 0, 0, 0], 0), Ok(vec![]));
}

#[test]
fn unframe_does_not_read_the_header() {
    assert_eq!(unframe(vec![0xff, 0xff, 0xff, 0xff, 1, 2], 2), Ok(vec![1, 2]));
}

#[test]
fn unframe_refuses_a_missing_header() {
    assert_eq!(unframe(vec![], 0), Err(PersistError::Truncated));
    assert_eq!(unframe(vec![0, 0, 0], 0), Err(PersistError::Truncated));
}

#[test]
fn unframe_refuses_another_size() {
    assert_eq!(unframe(vec![0, 0, 0, 3, 9, 8, 7], 4), Err(PersistError::SizeMismatch));
    assert_eq!(unframe(vec![0, 0, 0, 3, 9, 8, 7], 2), Err(PersistError::SizeMismatch));
    assert_eq!(unframe(vec![0, 0, 0, 0], 1), Err(PersistError::SizeMismatch));
}

#[test]
fn frame_then_unframe_is_identity() {
    let voxels: Vec<u8> = (0..300).map(|i| (i % 7) as u8).collect();
    assert_eq!(unframe(frame(&voxels), voxels.len()), Ok(voxels));
}

#[test]
fn encode_writes_a_gzip_stream_of_the_framed_voxels() {
    let voxels = vec![4u8; 5000];
    let blob = encode(&voxels).unwrap();
    assert_eq!(&blob[..3], &[0x1f, 0x8b, 8]);
    assert_ne!(blob, frame(&voxels));
    assert!(blob.len() < voxels.len());
    assert_eq!(gunzip(&blob), frame(&voxels));
}

#[test]
fn encode_gives_the_same_stream_each_time() {
    let voxels: Vec<u8> = (0..4096).map(|i| (i % 13) as u8).collect();
    assert_eq!(encode(&voxels).unwrap(), encode(&voxels).unwrap());
}

#[test]
fn decompress_reads_a_gzip_stream() {
    let blob = gzip(b"hello world");
    assert_ne!(blob, b"hello world".to_vec());
    assert_eq!(decompress(&blob), Ok(b"hello world".to_vec()));
}

#[test]
fn decompress_refuses_what_is_not_gzip() {
    assert_eq!(decompress(b"not a gzip stream"), Err(PersistError::Decompress));
    assert_eq!(decompress(&[]), Err(PersistError::Decompress));
}

#[test]
fn decompress_refuses_a_cut_stream() {
    let blob = gzip(&vec![3u8; 10000]);
    assert_eq!(decompress(&blob[..blob.len() - 5]), Err(PersistError::Decompress));
}

#[test]
fn encode_then_decode_round_trip() {
    let voxels: Vec<u8> = (0..10000).map(|i| (i * 31 % 256) as u8).collect();
    let blob = encode(&voxels).unwrap();
    assert_eq!(decode(&blob, voxels.len()), Ok(voxels));
}

#[test]
fn decode_errors() {
    assert_eq!(decode(b"garbage", 3), Err(PersistError::Decompress));
    assert_eq!(decode(&gzip(&[0, 0]), 0), Err(PersistError::Truncated));
    assert_eq!(decode(&gzip(&[0, 0, 0, 2, 1, 2]), 3), Err(PersistError::SizeMismatch));
    assert_eq!(decode(&gzip(&[0, 0, 0, 2, 1, 2]), 2), Ok(vec![1, 2]));
}

#[test]
fn compressed_maps_each_outcome() {
    assert_eq!(compressed(Ok(vec![1, 2, 3])), Ok(vec![1, 2, 3]));
    let failure = std::io::Error::new(std::io::ErrorKind::Other, "disk");
    assert_eq!(compressed(Err(failure)), Err(PersistError::Compress));
}

#[test]
fn encode_is_the_encoder_on_the_framed_voxels() {
    let voxels: Vec<u8> = (0..3000).map(|i| (i % 17) as u8).collect();
    assert_eq!(encode(&voxels), Ok(gzip(&frame(&voxels))));
    assert_eq!(encode(&[]), Ok(gzip(&[0, 0, 0, 0])));
}

#[test]
fn encode_of_an_empty_grid_round_trips() {
    let blob = encode(&[]).unwrap();
    assert_eq!(gunzip(&blob), vec![0, 0, 0, 0]);
    assert_eq!(decode(&blob, 0), Ok(vec![]));
}
