use miner::block::{append_nonce, block_digest, decode, u64_from_le_bytes, Header};

fn genesis_header() -> Header {
    Header {
        version: 1,
        transaction_count: 1,
        number: 1,
        previous_block: [0; 32],
        merkle_root: [
            0x63, 0x8c, 0x15, 0x9c, 0x1f, 0x11, 0x3f, 0x70, 0xa9, 0x86, 0x6d, 0x9a, 0x9e, 0x52,
            0xe9, 0xef, 0xe9, 0xb9, 0x92, 0x08, 0x48, 0xad, 0x1d, 0xf3, 0x48, 0x51, 0xbe, 0x8a,
            0x56, 0x2a, 0x99, 0x8d,
        ],
        timestamp: 0x56809ab7,
        difficulty: [0xff, 0xff, 0xff, 0xff, 0xff, 0xff, 0xff, 0x00],
        nonce: [0x11, 0x5a, 0x38, 0xbf, 0x3a, 0x90, 0x9f, 0xe1],
    }
}

#[test]
fn test_pack() {
    let live_genesis_block: [u8; 231] = [
        0x01, 0x00, 0x01, 0x00, 0x01, 0x00, 0x00, 0x00, 0x00, 0x00, 0x00, 0x00, 0x00, 0x00, 0x00,
        0x00, 0x00, 0x00, 0x00, 0x00, 0x00, 0x00, 0x00, 0x00, 0x00, 0x00, 0x00, 0x00, 0x00, 0x00,
        0x00, 0x00, 0x00, 0x00, 0x00, 0x00, 0x00, 0x00, 0x00, 0x00, 0x00, 0x00, 0x00, 0x00, 0x63,
        0x8c, 0x15, 0x9c, 0x1f, 0x11, 0x3f, 0x70, 0xa9, 0x86, 0x6d, 0x9a, 0x9e, 0x52, 0xe9, 0xef,
        0xe9, 0xb9, 0x92, 0x08, 0x48, 0xad, 0x1d, 0xf3, 0x48, 0x51, 0xbe, 0x8a, 0x56, 0x2a, 0x99,
        0x8d, 0xb7, 0x9a, 0x80, 0x56, 0x00, 0x00, 0x00, 0x00, 0xff, 0xff, 0xff, 0xff, 0xff, 0xff,
        0xff, 0x00, 0x11, 0x5a, 0x38, 0xbf, 0x3a, 0x90, 0x9f, 0xe1, 0x01, 0x00, 0x14, 0x44, 0x4f,
        0x57, 0x4e, 0x20, 0x74, 0x68, 0x65, 0x20, 0x52, 0x41, 0x42, 0x42, 0x49, 0x54, 0x20, 0x68,
        0x6f, 0x6c, 0x65, 0x21, 0x11, 0x4a, 0x65, 0xf1, 0xd2, 0x06, 0x50, 0x08, 0x12, 0x76, 0xf0,
        0x1d, 0xf4, 0x3e, 0x70, 0x55, 0x4e, 0x95, 0x49, 0x8f, 0x37, 0x78, 0xe5, 0x6d, 0xaa, 0x2c,
        0x49, 0x82, 0x03, 0xae, 0x9c, 0x70, 0xe6, 0xf4, 0xca, 0xb9, 0xd2, 0xd2, 0xcc, 0xdd, 0xb4,
        0x4c, 0x40, 0xc2, 0xa3, 0x84, 0xeb, 0xc9, 0x01, 0xa1, 0x8a, 0x13, 0xa2, 0x70, 0xaa, 0x9f,
        0x5e, 0x08, 0x06, 0x77, 0xd7, 0xab, 0x2f, 0xd8, 0x88, 0xa5, 0xf6, 0x57, 0xd2, 0xc6, 0xd4,
        0x69, 0x2e, 0x6f, 0xcd, 0xe7, 0x1c, 0x04, 0xb9, 0x1b, 0xe1, 0x40, 0x0e, 0x7c, 0x1e, 0x8d,
        0x5e, 0x2b, 0x34, 0x83, 0xc4, 0x77, 0xfe, 0xa1, 0x7b, 0xc1, 0xde, 0xe0, 0x05, 0xcc, 0x8d,
        0x4d, 0xf8, 0x62, 0x77, 0x0d, 0x0c,
    ];
    let live_genesis_digest: [u8; 32] = [
        0x5c, 0x93, 0xf7, 0x39, 0xeb, 0x01, 0xcd, 0xde, 0x30, 0x55, 0x79, 0xf0, 0x3c, 0xcf, 0xb3,
        0x7a, 0x74, 0x29, 0x71, 0x31, 0x3f, 0xf9, 0x8d, 0x35, 0xb4, 0xc0, 0x7c, 0x43, 0x8f, 0xaf,
        0x12, 0x00,
    ];

    let h = genesis_header();

    let buf = h.encode();
    assert_eq!(buf.len(), 100 - 8);
    assert_eq!(live_genesis_block[0..92], buf[..]);

    let nonce: u64 = 0xe19f903abf385a11;

    let buf2 = append_nonce(&buf, nonce);
    assert_eq!(buf2.len(), 100);
    assert_eq!(live_genesis_block[0..100], buf2[..]);

    let digest = block_digest(&buf2);
    assert_eq!(digest, live_genesis_digest);
}

#[test]
fn encode_decode_round_trip() {
    let h = genesis_header();
    let buf = append_nonce(&h.encode(), u64_from_le_bytes(&h.nonce));
    let back = decode(&buf);
    assert_eq!(back, h);
}

#[test]
fn nonce_field_reads_little_endian() {
    let h = genesis_header();
    assert_eq!(u64_from_le_bytes(&h.nonce), 0xe19f903abf385a11);
    assert_eq!(u64_from_le_bytes(&[1, 0, 0, 0, 0, 0, 0, 0]), 1);
    assert_eq!(
        u64_from_le_bytes(&[0, 0, 0, 0, 0, 0, 0, 0x80]),
        0x8000_0000_0000_0000
    );
}

#[test]
fn encode_lays_fields_out_in_order() {
    let h = Header {
        version: 0x0201,
        transaction_count: 0x0403,
        number: 0x0c0b0a0908070605,
        previous_block: [0xaa; 32],
        merkle_root: [0xbb; 32],
        timestamp: 0x14111211100f0e0d,
        difficulty: [1, 2, 3, 4, 5, 6, 7, 8],
        nonce: [9, 10, 11, 12, 13, 14, 15, 16],
    };
    let buf = h.encode();
    assert_eq!(buf.len(), 92);
    assert_eq!(&buf[0..2], &[0x01, 0x02]);
    assert_eq!(&buf[2..4], &[0x03, 0x04]);
    assert_eq!(&buf[4..12], &[5, 6, 7, 8, 9, 10, 11, 12]);
    assert_eq!(&buf[12..44], &[0xaa; 32][..]);
    assert_eq!(&buf[44..76], &[0xbb; 32][..]);
    assert_eq!(&buf[76..84], &[0x0d, 0x0e, 0x0f, 0x10, 0x11, 0x12, 0x11, 0x14]);
    assert_eq!(&buf[84..92], &[1, 2, 3, 4, 5, 6, 7, 8]);
}
