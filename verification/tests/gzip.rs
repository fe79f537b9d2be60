use http_server::gzip::compress;
use std::io::Read;

fn gunzip(bytes: &[u8]) -> Vec<u8> {
    let mut decoder = flate2::read::GzDecoder::new(bytes);
    let mut out = Vec::new();
    decoder.read_to_end(&mut out).unwrap();
    out
}

#[test]
fn compressed_bytes_decompress_to_the_input() {
    for data in [&b"hello hello hello hello"[..], b"", b"a", &[0u8, 255, 10, 13, 0, 0, 0][..]] {
        let packed = compress(data).expect("compressing into memory succeeds");
        assert_ne!(packed.as_slice(), data);
        assert_eq!(gunzip(&packed), data.to_vec());
    }
}

#[test]
fn compressed_bytes_are_a_gzip_stream() {
    let packed = compress(b"abc").unwrap();
    assert!(packed.len() >= 18);
    assert_eq!(&packed[..4], &[0x1f, 0x8b, 8, 0]);
    assert_eq!(&packed[4..8], &[0, 0, 0, 0]);
    assert_eq!(packed[9], 255);
    let n = packed.len();
    assert_eq!(&packed[n - 4..], &[3, 0, 0, 0]);
}

#[test]
fn compressing_twice_gives_the_same_bytes() {
    let data = b"the same input, the same output";
    assert_eq!(compress(data), compress(data));
}

#[test]
fn long_repetitive_input_gets_shorter() {
    let data = vec![b'a'; 10_000];
    let packed = compress(&data).unwrap();
    assert!(packed.len() < 200);
    assert_eq!(gunzip(&packed), data);
}
