use crate_indexer::embeddings::{bytes_to_embedding, embedding_to_bytes};

#[test]
fn test_embedding_serialization() {
    let embedding: Vec<f32> = vec![1.0, 2.0, 3.0, -4.5];
    let bits: Vec<u32> = embedding.iter().map(|value| value.to_bits()).collect();
    let bytes = embedding_to_bytes(&bits);
    let restored: Vec<f32> = bytes_to_embedding(&bytes).into_iter().map(f32::from_bits).collect();
    assert_eq!(embedding, restored);
}

#[test]
fn words_are_stored_least_significant_byte_first() {
    assert_eq!(embedding_to_bytes(&[0x3f80_0000, 0x0102_0304]), vec![0x00, 0x00, 0x80, 0x3f, 0x04, 0x03, 0x02, 0x01]);
    assert_eq!(embedding_to_bytes(&[1.0f32.to_bits()]), 1.0f32.to_le_bytes().to_vec());
    assert!(embedding_to_bytes(&[]).is_empty());
}

#[test]
fn bytes_that_make_no_word_are_left_out() {
    assert_eq!(bytes_to_embedding(&[0x04, 0x03, 0x02, 0x01, 0xff, 0xff]), vec![0x0102_0304]);
    assert_eq!(bytes_to_embedding(&[0xff, 0xff, 0xff]), Vec::<u32>::new());
    assert_eq!(bytes_to_embedding(&[0xff, 0xff, 0xff, 0xff]), vec![u32::MAX]);
    assert!(bytes_to_embedding(&[]).is_empty());
}

#[test]
fn every_word_comes_back() {
    let words: Vec<u32> = vec![0, 1, 255, 256, 65535, 65536, 0x00ff_ffff, 0x0100_0000, 0x8000_0000, u32::MAX];
    assert_eq!(bytes_to_embedding(&embedding_to_bytes(&words)), words);
}
