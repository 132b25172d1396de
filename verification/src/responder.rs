//! Job ingestion and dispatch.
//!
//! An inbound job message is validated field by field into a [`Job`]; the
//! dispatcher then fans one work item out to every worker over its dedicated
//! channel, giving worker `i` (0-indexed here) the starting nonce
//! `n0 + i * 2^32` modulo 2^64, so that no two workers ever search the same
//! nonce during one job.
//!
//! A closed worker channel is treated as fatal to the whole dispatch: the
//! first one aborts the rest of the fan-out and is reported as
//! [`DispatchError::WorkerChannelClosed`].  Each worker's channel delivers
//! jobs first-in first-out: a worker that falls behind works its backlog in
//! arrival order rather than jumping to the newest job.

use vstd::prelude::*;
use vstd::string::StringSliceAdditionalSpecFns;
use vstd::utf8::encode_utf8;

use crate::b64::{b64_decode, b64_encoded};
use crate::block::{
    clone_bytes, encoded_header, u64_from_le_bytes, u64_from_le_seq, Header,
};
use crate::hexstr::{hex_decode_32, hex_decode_8, hex_decoded, valid_hex};

verus! {

/// Why a job could not be dispatched.
#[derive(Debug, Clone, Copy, PartialEq, Eq, Structural)]
pub enum DispatchError {
    /// The message failed to parse or had missing or invalid fields.
    MalformedJob,
    /// The encoded header did not come to exactly 92 bytes.
    HeaderLengthError,
    /// A worker's channel had no receiver left.
    WorkerChannelClosed,
}

/// A unit of mining work: a header template with its transaction metadata.
/// `tx_zero` and `tx_ids` are carried through unchanged; the core touches
/// only `job` and `header`.
#[derive(Debug)]
pub struct Job {
    pub job: String,
    pub header: Header,
    pub tx_zero: Vec<u8>,
    pub tx_ids: Vec<String>,
}

/// A found nonce, ready for submission.
#[derive(Debug)]
pub struct Response {
    pub request: String,
    pub job: String,
    pub packed: Vec<u8>,
}

/// The header fields of a job message as they arrive from the wire, before
/// validation: every field may be missing, and the hash-valued fields are
/// still hexadecimal text.
pub struct RawHeader {
    pub version: Option<u16>,
    pub transaction_count: Option<u16>,
    pub number: Option<u64>,
    pub previous_block: Option<String>,
    pub merkle_root: Option<String>,
    pub timestamp: Option<u64>,
    pub difficulty: Option<String>,
    pub nonce: Option<String>,
}

/// A job message as it arrives from the wire, before validation.
pub struct RawJob {
    pub job: Option<String>,
    pub header: Option<RawHeader>,
    pub tx_zero: Option<String>,
    pub tx_ids: Option<Vec<String>>,
}

/// The hex-text field `s` is present and spells exactly `n` bytes.
pub open spec fn hex_field_ok(s: Option<String>, n: int) -> bool {
    &&& s matches Some(t)
    &&& valid_hex(encode_utf8(t@))
    &&& encode_utf8(t@).len() == 2 * n
}

/// Every header field is present and well-formed.
pub open spec fn raw_header_ok(r: RawHeader) -> bool {
    &&& r.version is Some
    &&& r.transaction_count is Some
    &&& r.number is Some
    &&& r.timestamp is Some
    &&& hex_field_ok(r.previous_block, 32)
    &&& hex_field_ok(r.merkle_root, 32)
    &&& hex_field_ok(r.difficulty, 8)
    &&& hex_field_ok(r.nonce, 8)
}

/// Every job field is present and well-formed; the transaction payload is
/// canonical base64.
pub open spec fn raw_job_ok(r: RawJob) -> bool {
    &&& r.job is Some
    &&& r.header matches Some(h) && raw_header_ok(h)
    &&& r.tx_zero matches Some(z) && (exists|v: Seq<u8>| encode_utf8(z@) == b64_encoded(v))
    &&& r.tx_ids is Some
}

/// `h` holds exactly the values spelled by the raw header fields.
pub open spec fn header_from_raw(rh: RawHeader, h: Header) -> bool {
    &&& rh.version matches Some(v) && h.version == v
    &&& rh.transaction_count matches Some(c) && h.transaction_count == c
    &&& rh.number matches Some(n) && h.number == n
    &&& rh.timestamp matches Some(t) && h.timestamp == t
    &&& rh.previous_block matches Some(s) && h.previous_block@ == hex_decoded(encode_utf8(s@))
    &&& rh.merkle_root matches Some(s) && h.merkle_root@ == hex_decoded(encode_utf8(s@))
    &&& rh.difficulty matches Some(s) && h.difficulty@ == hex_decoded(encode_utf8(s@))
    &&& rh.nonce matches Some(s) && h.nonce@ == hex_decoded(encode_utf8(s@))
}

/// `j` holds exactly the values spelled by the raw job fields.
pub open spec fn job_from_raw(raw: RawJob, j: Job) -> bool {
    &&& raw.job matches Some(id) && j.job == id
    &&& raw.header matches Some(rh) && header_from_raw(rh, j.header)
    &&& raw.tx_zero matches Some(z) && b64_encoded(j.tx_zero@) == encode_utf8(z@)
    &&& raw.tx_ids matches Some(ids) && j.tx_ids == ids
}

/// Validate a raw job message into a [`Job`].
///
/// Succeeds exactly when every field is present and well-formed — in
/// particular each hash-valued hex field must spell its exact width (32 or 8
/// bytes) — and then returns the job spelled by the message.  Anything else
/// is rejected as [`DispatchError::MalformedJob`] and produces nothing.
pub fn parse_job(raw: RawJob) -> (r: Result<Job, DispatchError>)
    ensures
        r is Ok <==> raw_job_ok(raw),
        r matches Ok(j) ==> job_from_raw(raw, j),
        r is Err ==> r == Err::<Job, DispatchError>(DispatchError::MalformedJob),
{
    let RawJob { job, header, tx_zero, tx_ids } = raw;
    let job = match job {
        Some(v) => v,
        None => {
            return Err(DispatchError::MalformedJob);
        },
    };
    let rh = match header {
        Some(v) => v,
        None => {
            return Err(DispatchError::MalformedJob);
        },
    };
    let tx_zero = match tx_zero {
        Some(v) => v,
        None => {
            return Err(DispatchError::MalformedJob);
        },
    };
    let tx_ids = match tx_ids {
        Some(v) => v,
        None => {
            return Err(DispatchError::MalformedJob);
        },
    };
    let version = match rh.version {
        Some(v) => v,
        None => {
            return Err(DispatchError::MalformedJob);
        },
    };
    let transaction_count = match rh.transaction_count {
        Some(v) => v,
        None => {
            return Err(DispatchError::MalformedJob);
        },
    };
    let number = match rh.number {
        Some(v) => v,
        None => {
            return Err(DispatchError::MalformedJob);
        },
    };
    let timestamp = match rh.timestamp {
        Some(v) => v,
        None => {
            return Err(DispatchError::MalformedJob);
        },
    };
    let previous_block = match &rh.previous_block {
        Some(s) => match hex_decode_32(s.as_str()) {
            Some(a) => a,
            None => {
                return Err(DispatchError::MalformedJob);
            },
        },
        None => {
            return Err(DispatchError::MalformedJob);
        },
    };
    let merkle_root = match &rh.merkle_root {
        Some(s) => match hex_decode_32(s.as_str()) {
            Some(a) => a,
            None => {
                return Err(DispatchError::MalformedJob);
            },
        },
        None => {
            return Err(DispatchError::MalformedJob);
        },
    };
    let difficulty = match &rh.difficulty {
        Some(s) => match hex_decode_8(s.as_str()) {
            Some(a) => a,
            None => {
                return Err(DispatchError::MalformedJob);
            },
        },
        None => {
            return Err(DispatchError::MalformedJob);
        },
    };
    let nonce = match &rh.nonce {
        Some(s) => match hex_decode_8(s.as_str()) {
            Some(a) => a,
            None => {
                return Err(DispatchError::MalformedJob);
            },
        },
        None => {
            return Err(DispatchError::MalformedJob);
        },
    };
    let tx_zero = match b64_decode(tx_zero.as_str()) {
        Some(v) => v,
        None => {
            return Err(DispatchError::MalformedJob);
        },
    };
    let header = Header {
        version,
        transaction_count,
        number,
        previous_block,
        merkle_root,
        timestamp,
        difficulty,
        nonce,
    };
    Ok(Job { job, header, tx_zero, tx_ids })
}

/// The starting nonce of worker `i` (0-indexed) for a job whose header
/// declares the starting nonce `n0`: `n0 + i * 2^32`, modulo 2^64.
pub open spec fn start_nonce(n0: u64, i: int) -> u64
    recommends
        0 <= i,
{
    ((n0 + i * 0x1_0000_0000) % 0x1_0000_0000_0000_0000) as u64
}

/// The work item the dispatcher sends to worker `i` for job `j`: the encoded
/// header, the worker's starting nonce, and the job identifier.
pub open spec fn work_item(j: Job, i: int) -> (Seq<u8>, u64, Seq<char>) {
    (encoded_header(j.header), start_nonce(u64_from_le_seq(j.header.nonce@), i), j.job@)
}

/// Stepping from one worker's starting nonce to the next is one wrapping add
/// of 2^32.
proof fn lemma_start_nonce_step(n0: u64, i: int)
    requires
        0 <= i,
    ensures
        start_nonce(n0, i + 1) == vstd::wrapping::u64_specs::wrapping_add(
            start_nonce(n0, i),
            0x1_0000_0000,
        ),
{
    let m: int = 0x1_0000_0000_0000_0000;
    let c: int = 0x1_0000_0000;
    let x: int = n0 + i * c;
    vstd::arithmetic::div_mod::lemma_mod_bound(x, m);
    let s: int = x % m;
    vstd::arithmetic::div_mod::lemma_add_mod_noop(x, c, m);
    assert(c % m == c);
    assert((s + c) % m == (x + c) % m);
    if s + c < m {
        vstd::arithmetic::div_mod::lemma_small_mod((s + c) as nat, m as nat);
    } else {
        vstd::arithmetic::div_mod::lemma_mod_sub_multiples_vanish(s + c, m);
        vstd::arithmetic::div_mod::lemma_small_mod((s + c - m) as nat, m as nat);
    }
    assert(x + c == n0 + (i + 1) * c);
}

/// Partition disjointness: two distinct workers' nonce cursors can never
/// meet.  Worker indices are below 2^32, and each cursor has made fewer than
/// 2^32 single increments from its starting nonce — within the idle-timeout
/// window a worker never comes near that many attempts — so the cursors
/// stay in disjoint bands of the nonce space.
pub proof fn lemma_partition_disjoint(n0: u64, i: u32, j: u32, a: u64, b: u64)
    requires
        i != j,
        a < 0x1_0000_0000,
        b < 0x1_0000_0000,
    ensures
        ((start_nonce(n0, i as int) + a) % 0x1_0000_0000_0000_0000) as u64 != ((start_nonce(
            n0,
            j as int,
        ) + b) % 0x1_0000_0000_0000_0000) as u64,
{
    let iu = i as u64;
    let ju = j as u64;
    let si = start_nonce(n0, i as int);
    let sj = start_nonce(n0, j as int);
    assert(si == ((n0 + iu * 0x1_0000_0000) % 0x1_0000_0000_0000_0000) as u64);
    assert(sj == ((n0 + ju * 0x1_0000_0000) % 0x1_0000_0000_0000_0000) as u64);
    assert(((si + a) % 0x1_0000_0000_0000_0000) as u64 != ((sj + b)
        % 0x1_0000_0000_0000_0000) as u64) by (bit_vector)
        requires
            si == ((n0 + iu * 0x1_0000_0000) % 0x1_0000_0000_0000_0000) as u64,
            sj == ((n0 + ju * 0x1_0000_0000) % 0x1_0000_0000_0000_0000) as u64,
            iu != ju,
            iu < 0x1_0000_0000,
            ju < 0x1_0000_0000,
            a < 0x1_0000_0000,
            b < 0x1_0000_0000,
    ;
}

/// Partition disjointness at the start: the initial nonces handed to two
/// distinct workers differ.
pub proof fn lemma_initial_nonces_distinct(n0: u64, i: u32, j: u32)
    requires
        i != j,
    ensures
        start_nonce(n0, i as int) != start_nonce(n0, j as int),
{
    let m: int = 0x1_0000_0000_0000_0000;
    vstd::arithmetic::div_mod::lemma_mod_bound(n0 + (i as int) * 0x1_0000_0000, m);
    vstd::arithmetic::div_mod::lemma_mod_bound(n0 + (j as int) * 0x1_0000_0000, m);
    lemma_partition_disjoint(n0, i, j, 0, 0);
    assert((start_nonce(n0, i as int) + 0) % m == start_nonce(n0, i as int) as int) by {
        vstd::arithmetic::div_mod::lemma_small_mod(start_nonce(n0, i as int) as nat, m as nat);
    }
    assert((start_nonce(n0, j as int) + 0) % m == start_nonce(n0, j as int) as int) by {
        vstd::arithmetic::div_mod::lemma_small_mod(start_nonce(n0, j as int) as nat, m as nat);
    }
}

/// The ASCII byte of the upper-case hexadecimal digit for `v` in 0..16.
pub open spec fn upper_hex_digit(v: int) -> u8
    recommends
        0 <= v < 16,
{
    if v < 10 {
        (0x30 + v) as u8
    } else {
        (0x41 + v - 10) as u8
    }
}

/// One byte of a JSON string value: quote and backslash get a backslash,
/// control bytes become `\u00XX`, everything else stands as itself (so
/// multi-byte UTF-8 passes through untouched).
pub open spec fn json_escaped_byte(b: u8) -> Seq<u8> {
    if b == 0x22 {
        seq![0x5c, 0x22]
    } else if b == 0x5c {
        seq![0x5c, 0x5c]
    } else if b < 0x20 {
        seq![0x5c, 0x75, 0x30, 0x30, upper_hex_digit((b >> 4) as int), upper_hex_digit(
            (b & 0xf) as int,
        )]
    } else {
        seq![b]
    }
}

/// A byte string escaped for use inside a JSON string value.
pub open spec fn json_escaped(s: Seq<u8>) -> Seq<u8>
    decreases s.len(),
{
    if s.len() == 0 {
        Seq::empty()
    } else {
        json_escaped(s.drop_last()) + json_escaped_byte(s.last())
    }
}

/// The wire submission message for a found nonce:
/// `{"request":"<tag>","job":"<id>","packed":"<base64 nonce bytes>"}`.
pub open spec fn submission_bytes(request: Seq<u8>, job: Seq<u8>, packed: Seq<u8>) -> Seq<u8> {
    ("{\"request\":\"").spec_bytes() + json_escaped(request) + ("\",\"job\":\"").spec_bytes()
        + json_escaped(job) + ("\",\"packed\":\"").spec_bytes() + b64_encoded(packed) + (
    "\"}").spec_bytes()
}

/// Append every byte of `s`.
fn push_all(out: &mut Vec<u8>, s: &[u8])
    ensures
        final(out)@ == old(out)@ + s@,
{
    let n: usize = s.len();
    let mut i: usize = 0;
    while i < n
        invariant
            n == s@.len(),
            i <= n,
            out@ == old(out)@ + s@.subrange(0, i as int),
        decreases n - i,
    {
        out.push(s[i]);
        i = i + 1;
    }
    assert(final(out)@ =~= old(out)@ + s@);
}

/// The ASCII byte of the upper-case hexadecimal digit for `v` in 0..16.
fn upper_hex(v: u8) -> (r: u8)
    requires
        v < 16,
    ensures
        r == upper_hex_digit(v as int),
{
    if v < 10 {
        0x30 + v
    } else {
        0x41 + v - 10
    }
}

/// Append the text of `s`, escaped for a JSON string value.
fn push_json_escaped(out: &mut Vec<u8>, s: &str)
    ensures
        final(out)@ == old(out)@ + json_escaped(s.spec_bytes()),
{
    let bs = s.as_bytes();
    let n: usize = bs.len();
    let mut i: usize = 0;
    while i < n
        invariant
            n == bs@.len(),
            bs@ == s.spec_bytes(),
            i <= n,
            out@ == old(out)@ + json_escaped(bs@.subrange(0, i as int)),
        decreases n - i,
    {
        let b = bs[i];
        if b == 0x22 {
            out.push(0x5c);
            out.push(0x22);
        } else if b == 0x5c {
            out.push(0x5c);
            out.push(0x5c);
        } else if b < 0x20 {
            out.push(0x5c);
            out.push(0x75);
            out.push(0x30);
            out.push(0x30);
            assert(b >> 4 < 16 && b & 0xf < 16) by (bit_vector);
            out.push(upper_hex(b >> 4));
            out.push(upper_hex(b & 0xf));
        } else {
            out.push(b);
        }
        proof {
            let pre = bs@.subrange(0, i as int);
            let cur = bs@.subrange(0, i + 1);
            assert(cur.drop_last() =~= pre);
            assert(cur.last() == bs@[i as int]);
            assert(out@ =~= old(out)@ + json_escaped(cur));
        }
        i = i + 1;
    }
    assert(bs@.subrange(0, n as int) =~= bs@);
}

/// Serialize a found-nonce response to its wire submission message: the
/// fixed request tag, the job identifier, and the nonce bytes in base64,
/// framed as a JSON object.
pub fn submission_message(resp: &Response) -> (out: Vec<u8>)
    ensures
        out@ == submission_bytes(
            encode_utf8(resp.request@),
            encode_utf8(resp.job@),
            resp.packed@,
        ),
{
    let mut out: Vec<u8> = Vec::new();
    push_all(&mut out, ("{\"request\":\"").as_bytes());
    push_json_escaped(&mut out, resp.request.as_str());
    push_all(&mut out, ("\",\"job\":\"").as_bytes());
    push_json_escaped(&mut out, resp.job.as_str());
    push_all(&mut out, ("\",\"packed\":\"").as_bytes());
    let enc = crate::b64::b64_encode(resp.packed.as_slice());
    push_all(&mut out, enc.as_slice());
    push_all(&mut out, ("\"}").as_bytes());
    out
}

/// The channel sender that carries work items to one worker.
#[verifier::external_type_specification]
#[verifier::external_body]
#[verifier::reject_recursive_types(T)]
pub struct ExSender<T: Send>(spmc::Sender<T>);

/// Everything ever sent over this sender, oldest first.  The channel is a
/// FIFO queue with this sender as its only producer, so each successful send
/// appends one item here.
pub uninterp spec fn sent_items(tx: spmc::Sender<(Vec<u8>, u64, String)>) -> Seq<
    (Seq<u8>, u64, Seq<char>),
>;

/// Relies on `spmc::Sender::send`: it pushes the item onto the channel's
/// FIFO queue and returns `Ok`, or — when every receiver is gone — delivers
/// nothing and returns an error carrying the item back.
#[verifier::external_body]
fn send_work(
    tx: &mut spmc::Sender<(Vec<u8>, u64, String)>,
    blk: Vec<u8>,
    nonce: u64,
    job: String,
) -> (r: Result<(), ()>)
    ensures
        r is Ok ==> sent_items(*final(tx)) == sent_items(*old(tx)).push((blk@, nonce, job@)),
        r is Err ==> sent_items(*final(tx)) == sent_items(*old(tx)),
{
    match tx.send((blk, nonce, job)) {
        Ok(()) => Ok(()),
        Err(_) => Err(()),
    }
}

/// The fan-out stopped at worker `k`: workers before `k` got their work
/// item for job `j`, workers from `k` on got nothing.
pub open spec fn fanout_stopped_at(
    j: Job,
    pre: Seq<spmc::Sender<(Vec<u8>, u64, String)>>,
    post: Seq<spmc::Sender<(Vec<u8>, u64, String)>>,
    k: int,
) -> bool {
    &&& forall|i: int|
        0 <= i < k ==> sent_items(post[i]) == sent_items(pre[i]).push(work_item(j, i))
    &&& forall|i: int| k <= i < pre.len() ==> sent_items(post[i]) == sent_items(pre[i])
}

/// Fan a job out to the worker pool: worker `i` (0-indexed) receives the
/// encoded header, the starting nonce `n0 + i * 2^32` (mod 2^64, `n0` read
/// little-endian from the header's nonce field), and the job identifier.
///
/// Sends happen in worker order.  On the first closed channel the dispatch
/// aborts with [`DispatchError::WorkerChannelClosed`], leaving earlier
/// workers served and later ones untouched.
pub fn send_job(job: &Job, txs: &mut Vec<spmc::Sender<(Vec<u8>, u64, String)>>) -> (r: Result<
    (),
    DispatchError,
>)
    ensures
        final(txs)@.len() == old(txs)@.len(),
        r is Ok ==> forall|i: int|
            0 <= i < old(txs)@.len() ==> sent_items(final(txs)@[i]) == sent_items(
                old(txs)@[i],
            ).push(work_item(*job, i)),
        r is Err ==> r == Err::<(), DispatchError>(DispatchError::WorkerChannelClosed),
        r is Err ==> exists|k: int|
            0 <= k < old(txs)@.len() && #[trigger] fanout_stopped_at(
                *job,
                old(txs)@,
                final(txs)@,
                k,
            ),
{
    let blk = job.header.encode();
    if blk.len() != 92 {
        return Err(DispatchError::HeaderLengthError);
    }
    let n0 = u64_from_le_bytes(&job.header.nonce);
    let mut nnn: u64 = n0;
    let n: usize = txs.len();
    let mut i: usize = 0;
    while i < n
        invariant
            n == txs@.len() == old(txs)@.len(),
            i <= n,
            blk@ == encoded_header(job.header),
            n0 == u64_from_le_seq(job.header.nonce@),
            nnn == start_nonce(n0, i as int),
            forall|k: int|
                0 <= k < i ==> sent_items(txs@[k]) == sent_items(old(txs)@[k]).push(
                    work_item(*job, k),
                ),
            forall|k: int| i <= k < n ==> txs@[k] == old(txs)@[k],
        decreases n - i,
    {
        let item_blk = clone_bytes(&blk);
        let item_job = job.job.clone();
        let sent = send_work(&mut txs[i], item_blk, nnn, item_job);
        match sent {
            Ok(()) => {},
            Err(()) => {
                assert(fanout_stopped_at(*job, old(txs)@, txs@, i as int));
                return Err(DispatchError::WorkerChannelClosed);
            },
        }
        proof {
            lemma_start_nonce_step(n0, i as int);
        }
        nnn = nnn.wrapping_add(0x1_0000_0000);
        i = i + 1;
    }
    Ok(())
}

} // verus!
