//! Block headers and their fixed-layout binary encoding.
//!
//! A header encodes to exactly 92 bytes: all multi-byte integers are
//! little-endian, the hash-valued fields are copied byte for byte.  Appending
//! the 8-byte little-endian nonce yields the 100-byte buffer that is hashed
//! per attempt.

use vstd::prelude::*;

verus! {

/// A block-header template as carried by a mining job.
///
/// Everything but the trailing nonce is fixed for the lifetime of a job; a
/// worker varies the nonce per hash attempt on its own copy of the encoded
/// bytes.
#[derive(Debug, Clone, PartialEq, Eq)]
pub struct Header {
    pub version: u16,
    pub transaction_count: u16,
    pub number: u64,
    pub previous_block: [u8; 32],
    pub merkle_root: [u8; 32],
    pub timestamp: u64,
    pub difficulty: [u8; 8],
    pub nonce: [u8; 8],
}

/// The two little-endian bytes of a 16-bit integer.
pub open spec fn u16_le(x: u16) -> Seq<u8> {
    seq![(x & 0xff) as u8, ((x >> 8) & 0xff) as u8]
}

/// The eight little-endian bytes of a 64-bit integer.
pub open spec fn u64_le(x: u64) -> Seq<u8> {
    seq![
        (x & 0xff) as u8,
        ((x >> 8) & 0xff) as u8,
        ((x >> 16) & 0xff) as u8,
        ((x >> 24) & 0xff) as u8,
        ((x >> 32) & 0xff) as u8,
        ((x >> 40) & 0xff) as u8,
        ((x >> 48) & 0xff) as u8,
        ((x >> 56) & 0xff) as u8,
    ]
}

/// The 16-bit integer read from two little-endian bytes.
pub open spec fn u16_from_le_seq(s: Seq<u8>) -> u16 {
    (s[0] + s[1] * 0x100) as u16
}

/// The 64-bit integer read from eight little-endian bytes.
pub open spec fn u64_from_le_seq(s: Seq<u8>) -> u64 {
    (s[0] + s[1] * 0x100 + s[2] * 0x1_0000 + s[3] * 0x100_0000 + s[4] * 0x1_0000_0000
        + s[5] * 0x100_0000_0000 + s[6] * 0x1_0000_0000_0000 + s[7] * 0x100_0000_0000_0000) as u64
}

/// The canonical 92-byte encoding of a header: the fields in order, integers
/// little-endian, hash fields raw, the nonce field left out.
pub open spec fn encoded_header(h: Header) -> Seq<u8> {
    u16_le(h.version) + u16_le(h.transaction_count) + u64_le(h.number) + h.previous_block@
        + h.merkle_root@ + u64_le(h.timestamp) + h.difficulty@
}

/// The full 100-byte form: the 92 canonical bytes followed by the raw nonce
/// field.
pub open spec fn full_encoded_header(h: Header) -> Seq<u8> {
    encoded_header(h) + h.nonce@
}

/// `h` holds exactly the field values found at the fixed offsets of the
/// 100-byte buffer `s`.
pub open spec fn header_matches(h: Header, s: Seq<u8>) -> bool {
    &&& s.len() == 100
    &&& h.version == u16_from_le_seq(s.subrange(0, 2))
    &&& h.transaction_count == u16_from_le_seq(s.subrange(2, 4))
    &&& h.number == u64_from_le_seq(s.subrange(4, 12))
    &&& h.previous_block@ == s.subrange(12, 44)
    &&& h.merkle_root@ == s.subrange(44, 76)
    &&& h.timestamp == u64_from_le_seq(s.subrange(76, 84))
    &&& h.difficulty@ == s.subrange(84, 92)
    &&& h.nonce@ == s.subrange(92, 100)
}

impl Header {
    /// Serialize the header to its canonical 92-byte form.
    pub fn encode(&self) -> (r: Vec<u8>)
        ensures
            r@ == encoded_header(*self),
            r@.len() == 92,
    {
        let mut r: Vec<u8> = Vec::new();
        push_u16_le(&mut r, self.version);
        push_u16_le(&mut r, self.transaction_count);
        push_u64_le(&mut r, self.number);
        push_array_32(&mut r, &self.previous_block);
        push_array_32(&mut r, &self.merkle_root);
        push_u64_le(&mut r, self.timestamp);
        push_array_8(&mut r, &self.difficulty);
        assert(r@ =~= encoded_header(*self));
        r
    }
}

/// Append the 8-byte little-endian `nonce` to a 92-byte encoded header,
/// yielding the 100-byte buffer hashed per attempt.
pub fn append_nonce(blk: &[u8], nonce: u64) -> (r: Vec<u8>)
    requires
        blk@.len() == 92,
    ensures
        r@ == blk@ + u64_le(nonce),
        r@.len() == 100,
{
    let mut r: Vec<u8> = Vec::new();
    let mut i: usize = 0;
    while i < 92
        invariant
            i <= 92,
            blk@.len() == 92,
            r@ == blk@.subrange(0, i as int),
        decreases 92 - i,
    {
        r.push(blk[i]);
        i = i + 1;
    }
    assert(r@ =~= blk@);
    push_u64_le(&mut r, nonce);
    r
}

/// Read a header back from a 100-byte buffer, field by field at the fixed
/// offsets.
pub fn decode(bytes: &[u8]) -> (h: Header)
    requires
        bytes@.len() == 100,
    ensures
        header_matches(h, bytes@),
{
    let version = read_u16_le(bytes, 0);
    let transaction_count = read_u16_le(bytes, 2);
    let number = read_u64_le(bytes, 4);
    let previous_block = read_array_32(bytes, 12);
    let merkle_root = read_array_32(bytes, 44);
    let timestamp = read_u64_le(bytes, 76);
    let difficulty = read_array_8(bytes, 84);
    let nonce = read_array_8(bytes, 92);
    Header {
        version,
        transaction_count,
        number,
        previous_block,
        merkle_root,
        timestamp,
        difficulty,
        nonce,
    }
}

/// Read two little-endian bytes at `at` as a 16-bit integer.
fn read_u16_le(bytes: &[u8], at: usize) -> (r: u16)
    requires
        at + 2 <= bytes@.len(),
    ensures
        r == u16_from_le_seq(bytes@.subrange(at as int, at + 2)),
{
    let b0 = bytes[at] as u16;
    let b1 = bytes[at + 1] as u16;
    b0 + b1 * 0x100
}

/// Read eight little-endian bytes at `at` as a 64-bit integer.
fn read_u64_le(bytes: &[u8], at: usize) -> (r: u64)
    requires
        at + 8 <= bytes@.len(),
    ensures
        r == u64_from_le_seq(bytes@.subrange(at as int, at + 8)),
{
    let b0 = bytes[at] as u64;
    let b1 = bytes[at + 1] as u64;
    let b2 = bytes[at + 2] as u64;
    let b3 = bytes[at + 3] as u64;
    let b4 = bytes[at + 4] as u64;
    let b5 = bytes[at + 5] as u64;
    let b6 = bytes[at + 6] as u64;
    let b7 = bytes[at + 7] as u64;
    b0 + b1 * 0x100 + b2 * 0x1_0000 + b3 * 0x100_0000 + b4 * 0x1_0000_0000 + b5 * 0x100_0000_0000
        + b6 * 0x1_0000_0000_0000 + b7 * 0x100_0000_0000_0000
}

/// Copy 32 bytes starting at `at` into an array.
fn read_array_32(bytes: &[u8], at: usize) -> (r: [u8; 32])
    requires
        at + 32 <= bytes@.len(),
    ensures
        r@ == bytes@.subrange(at as int, at + 32),
{
    let n: usize = bytes.len();
    let mut r: [u8; 32] = [0; 32];
    let mut i: usize = 0;
    while i < 32
        invariant
            i <= 32,
            at + 32 <= n == bytes@.len(),
            r@.len() == 32,
            forall|k: int| 0 <= k < i ==> r@[k] == bytes@[at + k],
        decreases 32 - i,
    {
        r[i] = bytes[at + i];
        i = i + 1;
    }
    assert(r@ =~= bytes@.subrange(at as int, at + 32));
    r
}

/// Copy 8 bytes starting at `at` into an array.
fn read_array_8(bytes: &[u8], at: usize) -> (r: [u8; 8])
    requires
        at + 8 <= bytes@.len(),
    ensures
        r@ == bytes@.subrange(at as int, at + 8),
{
    let n: usize = bytes.len();
    let mut r: [u8; 8] = [0; 8];
    let mut i: usize = 0;
    while i < 8
        invariant
            i <= 8,
            at + 8 <= n == bytes@.len(),
            r@.len() == 8,
            forall|k: int| 0 <= k < i ==> r@[k] == bytes@[at + k],
        decreases 8 - i,
    {
        r[i] = bytes[at + i];
        i = i + 1;
    }
    assert(r@ =~= bytes@.subrange(at as int, at + 8));
    r
}

/// Round-trip law: re-reading the fixed fields from a header's full 100-byte
/// encoding reproduces the header's field values exactly, and the encoded
/// lengths are exactly 92 and 100 bytes.
pub proof fn lemma_round_trip(h: Header)
    ensures
        encoded_header(h).len() == 92,
        full_encoded_header(h).len() == 100,
        header_matches(h, full_encoded_header(h)),
{
    let s = full_encoded_header(h);
    lemma_u16_le_round(h.version);
    lemma_u16_le_round(h.transaction_count);
    lemma_u64_le_round(h.number);
    lemma_u64_le_round(h.timestamp);
    assert(s.subrange(0, 2) =~= u16_le(h.version));
    assert(s.subrange(2, 4) =~= u16_le(h.transaction_count));
    assert(s.subrange(4, 12) =~= u64_le(h.number));
    assert(s.subrange(12, 44) =~= h.previous_block@);
    assert(s.subrange(44, 76) =~= h.merkle_root@);
    assert(s.subrange(76, 84) =~= u64_le(h.timestamp));
    assert(s.subrange(84, 92) =~= h.difficulty@);
    assert(s.subrange(92, 100) =~= h.nonce@);
}

/// Two headers that match the same buffer are the same header.
pub proof fn lemma_header_matches_unique(h1: Header, h2: Header, s: Seq<u8>)
    requires
        header_matches(h1, s),
        header_matches(h2, s),
    ensures
        h1 == h2,
{
    broadcast use vstd::array::group_array_axioms;

    assert forall|i: int| 0 <= i < 32 implies h1.previous_block[i] == h2.previous_block[i] by {
        assert(h1.previous_block@[i] == h2.previous_block@[i]);
    }
    assert forall|i: int| 0 <= i < 32 implies h1.merkle_root[i] == h2.merkle_root[i] by {
        assert(h1.merkle_root@[i] == h2.merkle_root@[i]);
    }
    assert forall|i: int| 0 <= i < 8 implies h1.difficulty[i] == h2.difficulty[i] by {
        assert(h1.difficulty@[i] == h2.difficulty@[i]);
    }
    assert forall|i: int| 0 <= i < 8 implies h1.nonce[i] == h2.nonce[i] by {
        assert(h1.nonce@[i] == h2.nonce@[i]);
    }
    assert(h1.previous_block =~= h2.previous_block);
    assert(h1.merkle_root =~= h2.merkle_root);
    assert(h1.difficulty =~= h2.difficulty);
    assert(h1.nonce =~= h2.nonce);
    assert(h1 =~= h2);
}

/// Reading back the little-endian bytes of a 16-bit integer gives it back.
proof fn lemma_u16_le_round(x: u16)
    ensures
        u16_from_le_seq(u16_le(x)) == x,
{
    assert(((x & 0xff) as u8) + (((x >> 8) & 0xff) as u8) * 0x100 == x) by (bit_vector);
}

/// Reading back the little-endian bytes of a 64-bit integer gives it back.
proof fn lemma_u64_le_round(x: u64)
    ensures
        u64_from_le_seq(u64_le(x)) == x,
{
    assert(((x & 0xff) as u8) + (((x >> 8) & 0xff) as u8) * 0x100 + (((x >> 16) & 0xff) as u8)
        * 0x1_0000 + (((x >> 24) & 0xff) as u8) * 0x100_0000 + (((x >> 32) & 0xff) as u8)
        * 0x1_0000_0000 + (((x >> 40) & 0xff) as u8) * 0x100_0000_0000 + (((x >> 48) & 0xff) as u8)
        * 0x1_0000_0000_0000 + (((x >> 56) & 0xff) as u8) * 0x100_0000_0000_0000 == x)
        by (bit_vector);
}

/// Read an 8-byte array as a little-endian 64-bit integer, as the dispatcher
/// does with the header's nonce field.
pub fn u64_from_le_bytes(a: &[u8; 8]) -> (r: u64)
    ensures
        r == u64_from_le_seq(a@),
{
    let b0 = a[0] as u64;
    let b1 = a[1] as u64;
    let b2 = a[2] as u64;
    let b3 = a[3] as u64;
    let b4 = a[4] as u64;
    let b5 = a[5] as u64;
    let b6 = a[6] as u64;
    let b7 = a[7] as u64;
    b0 + b1 * 0x100 + b2 * 0x1_0000 + b3 * 0x100_0000 + b4 * 0x1_0000_0000 + b5 * 0x100_0000_0000
        + b6 * 0x1_0000_0000_0000 + b7 * 0x100_0000_0000_0000
}

/// Copy a byte vector.
pub fn clone_bytes(v: &Vec<u8>) -> (r: Vec<u8>)
    ensures
        r@ == v@,
{
    let n: usize = v.len();
    let mut r: Vec<u8> = Vec::new();
    let mut i: usize = 0;
    while i < n
        invariant
            n == v@.len(),
            i <= n,
            r@ == v@.subrange(0, i as int),
        decreases n - i,
    {
        r.push(v[i]);
        i = i + 1;
    }
    assert(r@ =~= v@);
    r
}

/// The digest that the hashing primitive computes for a byte buffer: a pure
/// function of the bytes alone, with the fixed parameters documented on
/// `block_digest`.
pub uninterp spec fn digest_of(data: Seq<u8>) -> Seq<u8>;

/// Relies on `argon2::hash_raw` (crate rust-argon2): with a fixed
/// configuration — Argon2d (the data-dependent variant), version 0x13,
/// memory cost 2^17 KiB (128 MiB), 4 iterations, 1 lane, 32-byte output, no
/// secret, no associated data, password and salt both the full buffer — the
/// digest is a pure function of the input bytes, and is 32 bytes long.
/// `hash_raw` validates only the parameters and the password/salt lengths
/// (salt at least 8 bytes), so with the bounds required here it always
/// returns `Ok`.
#[verifier::external_body]
pub fn block_digest(data: &[u8]) -> (r: Vec<u8>)
    requires
        8 <= data@.len() <= 0xffff_ffff,
    ensures
        r@ == digest_of(data@),
        r@.len() == 32,
{
    let config = argon2::Config {
        ad: &[],
        hash_length: 32,
        lanes: 1,
        mem_cost: 1 << 17,
        secret: &[],
        thread_mode: argon2::ThreadMode::Sequential,
        time_cost: 4,
        variant: argon2::Variant::Argon2d,
        version: argon2::Version::Version13,
    };
    argon2::hash_raw(data, data, &config).unwrap()
}

/// Append the two little-endian bytes of `x`.
fn push_u16_le(buf: &mut Vec<u8>, x: u16)
    ensures
        final(buf)@ == old(buf)@ + u16_le(x),
{
    buf.push((x & 0xff) as u8);
    buf.push(((x >> 8) & 0xff) as u8);
    assert(final(buf)@ =~= old(buf)@ + u16_le(x));
}

/// Append the eight little-endian bytes of `x`.
pub fn push_u64_le(buf: &mut Vec<u8>, x: u64)
    ensures
        final(buf)@ == old(buf)@ + u64_le(x),
{
    buf.push((x & 0xff) as u8);
    buf.push(((x >> 8) & 0xff) as u8);
    buf.push(((x >> 16) & 0xff) as u8);
    buf.push(((x >> 24) & 0xff) as u8);
    buf.push(((x >> 32) & 0xff) as u8);
    buf.push(((x >> 40) & 0xff) as u8);
    buf.push(((x >> 48) & 0xff) as u8);
    buf.push(((x >> 56) & 0xff) as u8);
    assert(final(buf)@ =~= old(buf)@ + u64_le(x));
}

/// Append all 32 bytes of `a`.
fn push_array_32(buf: &mut Vec<u8>, a: &[u8; 32])
    ensures
        final(buf)@ == old(buf)@ + a@,
{
    let mut i: usize = 0;
    while i < 32
        invariant
            i <= 32,
            buf@ == old(buf)@ + a@.subrange(0, i as int),
        decreases 32 - i,
    {
        buf.push(a[i]);
        i = i + 1;
    }
    assert(final(buf)@ =~= old(buf)@ + a@);
}

/// Append all 8 bytes of `a`.
fn push_array_8(buf: &mut Vec<u8>, a: &[u8; 8])
    ensures
        final(buf)@ == old(buf)@ + a@,
{
    let mut i: usize = 0;
    while i < 8
        invariant
            i <= 8,
            buf@ == old(buf)@ + a@.subrange(0, i as int),
        decreases 8 - i,
    {
        buf.push(a[i]);
        i = i + 1;
    }
    assert(final(buf)@ =~= old(buf)@ + a@);
}

} // verus!
