use rand::RngCore;
use remus::compression::choose_smaller;
use remus::{compress, compress_if_beneficial, decompress};

#[test]
fn test_compression_roundtrip() {
    let input: Vec<u8> = (0..1000).map(|i| (i % 10) as u8).collect();

    let compressed = compress(&input).unwrap();
    let decompressed = decompress(&compressed).unwrap();

    assert_eq!(input, decompressed);
    assert!(
        compressed.len() < input.len(),
        "Compressed size {} should be less than input size {}",
        compressed.len(),
        input.len()
    );
}

#[test]
fn test_compression_large_data() {
    let input: Vec<u8> = (0..10000).map(|i| (i % 256) as u8).collect();

    let compressed = compress(&input).unwrap();
    let decompressed = decompress(&compressed).unwrap();

    assert_eq!(input, decompressed);
}

#[test]
fn test_compression_empty() {
    let input: Vec<u8> = vec![];

    let compressed = compress(&input).unwrap();
    let decompressed = decompress(&compressed).unwrap();

    assert_eq!(input, decompressed);
}

#[test]
fn incompressible_data_is_returned_unchanged() {
    let mut data = vec![0u8; 4096];
    rand::thread_rng().fill_bytes(&mut data);
    let out = compress_if_beneficial(&data).unwrap();
    assert!(out.len() <= data.len());
    assert_eq!(out, data);
}

#[test]
fn compressible_data_is_compressed() {
    let data = vec![7u8; 4096];
    let out = compress_if_beneficial(&data).unwrap();
    assert!(out.len() < data.len());
    assert_eq!(decompress(&out).unwrap(), data);
}

#[test]
fn tiny_input_is_kept() {
    let out = compress_if_beneficial(b"a").unwrap();
    assert_eq!(out, b"a".to_vec());
    assert_eq!(compress_if_beneficial(b"").unwrap(), Vec::<u8>::new());
}

#[test]
fn choose_smaller_prefers_strictly_shorter() {
    assert_eq!(choose_smaller(b"abcd", vec![1, 2]), vec![1, 2]);
    assert_eq!(choose_smaller(b"ab", vec![1, 2]), b"ab".to_vec());
    assert_eq!(choose_smaller(b"ab", vec![1, 2, 3]), b"ab".to_vec());
}

#[test]
fn decompress_rejects_garbage() {
    assert!(matches!(decompress(b"not zstd"), Err(remus::ProtocolError::CompressionError(_))));
}
