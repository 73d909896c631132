use paigaldaja::download::DownloadBuffer;
use paigaldaja::errors::{InstallError, IntegrityError};
use sha2::Digest;

fn sha512_of(data: &[u8]) -> Vec<u8> {
    sha2::Sha512::digest(data).to_vec()
}

#[test]
fn accepts_exact_size_and_hash() {
    let content: Vec<u8> = (0..100u32).map(|i| (i % 251) as u8).collect();
    let mut buf = DownloadBuffer::new(sha512_of(&content), 100);
    assert_eq!(buf.push_chunk(&content[..40]), Ok(()));
    assert_eq!(buf.push_chunk(&content[40..]), Ok(()));
    assert_eq!(buf.received(), 100);
    assert_eq!(buf.finish(), Ok(content));
}

#[test]
fn rejects_short_stream() {
    let content: Vec<u8> = vec![7u8; 100];
    let mut buf = DownloadBuffer::new(sha512_of(&content), 100);
    assert_eq!(buf.push_chunk(&content[..99]), Ok(()));
    assert_eq!(
        buf.finish(),
        Err(InstallError::Integrity(IntegrityError::WrongSize {
            expected: 100,
            received: 99
        }))
    );
}

#[test]
fn aborts_oversized_stream_before_buffering_it() {
    let content: Vec<u8> = vec![7u8; 100];
    let mut buf = DownloadBuffer::new(sha512_of(&content), 100);
    assert_eq!(buf.push_chunk(&content), Ok(()));
    assert_eq!(
        buf.push_chunk(&[1u8]),
        Err(InstallError::Integrity(IntegrityError::TooLarge {
            expected: 100,
            received: 101
        }))
    );
    assert_eq!(buf.received(), 100);
}

#[test]
fn rejects_wrong_hash_and_reports_both_digests() {
    let content: Vec<u8> = vec![7u8; 100];
    let other: Vec<u8> = vec![8u8; 100];
    let mut buf = DownloadBuffer::new(sha512_of(&other), 100);
    assert_eq!(buf.push_chunk(&content), Ok(()));
    assert_eq!(
        buf.finish(),
        Err(InstallError::Integrity(IntegrityError::WrongHash {
            expected: sha512_of(&other),
            received: sha512_of(&content),
        }))
    );
}

#[test]
fn digest_is_real_sha512() {
    // The digest of the empty input, as SHA-512 defines it.
    let empty_sha512_hex = "cf83e1357eefb8bdf1542850d66d8007d620e4050b5715dc83f4a921d36ce9ce\
47d0d13c5d85f2b0ff8318d2877eec2f63b931bd47417a81a538327af927da3e";
    let expected = paigaldaja::hexutil::hex_decode(empty_sha512_hex).unwrap();
    let mut buf = DownloadBuffer::new(expected, 0);
    assert_eq!(buf.push_chunk(&[]), Ok(()));
    assert_eq!(buf.finish(), Ok(vec![]));
}

#[test]
fn zero_expected_size_rejects_any_byte() {
    let mut buf = DownloadBuffer::new(vec![0u8; 64], 0);
    assert_eq!(
        buf.push_chunk(&[9u8]),
        Err(InstallError::Integrity(IntegrityError::TooLarge {
            expected: 0,
            received: 1
        }))
    );
}
