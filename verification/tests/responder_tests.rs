use miner::block::u64_from_le_bytes;
use miner::responder::{
    parse_job, send_job, submission_message, DispatchError, RawHeader, RawJob, Response,
};

fn raw_header() -> RawHeader {
    RawHeader {
        version: Some(1),
        transaction_count: Some(1),
        number: Some(1),
        previous_block: Some("00".repeat(32)),
        merkle_root: Some(
            "638c159c1f113f70a9866d9a9e52e9efe9b9920848ad1df34851be8a562a998d".to_string(),
        ),
        timestamp: Some(0x56809ab7),
        difficulty: Some("ffffffffffffff00".to_string()),
        nonce: Some("115a38bf3a909fe1".to_string()),
    }
}

fn raw_job() -> RawJob {
    RawJob {
        job: Some("job-1".to_string()),
        header: Some(raw_header()),
        tx_zero: Some("aGVsbG8=".to_string()),
        tx_ids: Some(vec!["t1".to_string(), "t2".to_string()]),
    }
}

#[test]
fn parse_job_accepts_a_well_formed_message() {
    let j = parse_job(raw_job()).unwrap();
    assert_eq!(j.job, "job-1");
    assert_eq!(j.header.version, 1);
    assert_eq!(j.header.transaction_count, 1);
    assert_eq!(j.header.number, 1);
    assert_eq!(j.header.previous_block, [0u8; 32]);
    assert_eq!(j.header.merkle_root[0], 0x63);
    assert_eq!(j.header.merkle_root[31], 0x8d);
    assert_eq!(j.header.timestamp, 0x56809ab7);
    assert_eq!(j.header.difficulty, [0xff, 0xff, 0xff, 0xff, 0xff, 0xff, 0xff, 0x00]);
    assert_eq!(j.header.nonce, [0x11, 0x5a, 0x38, 0xbf, 0x3a, 0x90, 0x9f, 0xe1]);
    assert_eq!(j.tx_zero, b"hello".to_vec());
    assert_eq!(j.tx_ids, vec!["t1".to_string(), "t2".to_string()]);
}

#[test]
fn parse_job_rejects_a_missing_header() {
    let mut raw = raw_job();
    raw.header = None;
    assert_eq!(parse_job(raw).unwrap_err(), DispatchError::MalformedJob);
}

#[test]
fn parse_job_rejects_a_short_previous_block() {
    let mut raw = raw_job();
    let mut h = raw_header();
    h.previous_block = Some("00".repeat(31));
    raw.header = Some(h);
    assert_eq!(parse_job(raw).unwrap_err(), DispatchError::MalformedJob);
}

#[test]
fn parse_job_rejects_a_non_hex_nonce() {
    let mut raw = raw_job();
    let mut h = raw_header();
    h.nonce = Some("115a38bf3a909fzz".to_string());
    raw.header = Some(h);
    assert_eq!(parse_job(raw).unwrap_err(), DispatchError::MalformedJob);
}

#[test]
fn parse_job_rejects_a_missing_job_id() {
    let mut raw = raw_job();
    raw.job = None;
    assert_eq!(parse_job(raw).unwrap_err(), DispatchError::MalformedJob);
}

#[test]
fn parse_job_rejects_bad_transaction_base64() {
    let mut raw = raw_job();
    raw.tx_zero = Some("aGVsbG8".to_string());
    assert_eq!(parse_job(raw).unwrap_err(), DispatchError::MalformedJob);
}

#[test]
fn send_job_partitions_the_nonce_space() {
    let j = parse_job(raw_job()).unwrap();
    let n0 = u64_from_le_bytes(&j.header.nonce);
    let expected_header = j.header.encode();

    let mut txs = Vec::new();
    let mut rxs = Vec::new();
    for _ in 0..3 {
        let (tx, rx) = spmc::channel::<(Vec<u8>, u64, String)>();
        txs.push(tx);
        rxs.push(rx);
    }
    send_job(&j, &mut txs).unwrap();

    let mut nonces = Vec::new();
    for (i, rx) in rxs.iter().enumerate() {
        let (blk, nonce, job) = rx.try_recv().unwrap();
        assert_eq!(blk, expected_header);
        assert_eq!(job, "job-1");
        assert_eq!(nonce, n0.wrapping_add((i as u64) * 0x1_0000_0000));
        nonces.push(nonce);
        assert!(matches!(rx.try_recv(), Err(std::sync::mpsc::TryRecvError::Empty)));
    }
    nonces.sort();
    nonces.dedup();
    assert_eq!(nonces.len(), 3);
}

#[test]
fn send_job_reports_a_closed_worker_channel() {
    let j = parse_job(raw_job()).unwrap();
    let (tx, rx) = spmc::channel::<(Vec<u8>, u64, String)>();
    drop(rx);
    let mut txs = vec![tx];
    assert_eq!(
        send_job(&j, &mut txs).unwrap_err(),
        DispatchError::WorkerChannelClosed
    );
}

#[test]
fn submission_message_frames_the_response() {
    let resp = Response {
        request: "block.nonce".to_string(),
        job: "job-1".to_string(),
        packed: vec![0x11, 0x5a, 0x38, 0xbf, 0x3a, 0x90, 0x9f, 0xe1],
    };
    let msg = submission_message(&resp);
    assert_eq!(
        String::from_utf8(msg).unwrap(),
        "{\"request\":\"block.nonce\",\"job\":\"job-1\",\"packed\":\"EVo4vzqQn+E=\"}"
    );
}

#[test]
fn submission_message_escapes_the_job_id() {
    let resp = Response {
        request: "block.nonce".to_string(),
        job: "a\"b\\c\nd".to_string(),
        packed: vec![],
    };
    let msg = submission_message(&resp);
    assert_eq!(
        String::from_utf8(msg).unwrap(),
        "{\"request\":\"block.nonce\",\"job\":\"a\\\"b\\\\c\\u000Ad\",\"packed\":\"\"}"
    );
}
