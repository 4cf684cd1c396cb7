use escrow_project::EscrowError;
use escrow_project::PrincipalId;
use escrow_project::challenge::{EntropyFeed, challenge_set, parse_entropy_records};
use escrow_project::encoding::reduce_mod_field;
use escrow_project::escrow::Escrow;

fn feed_data(records: &[(u64, [u8; 32])]) -> Vec<u8> {
    let mut data = (records.len() as u64).to_le_bytes().to_vec();
    for (value, hash) in records {
        data.extend_from_slice(&value.to_le_bytes());
        data.extend_from_slice(hash);
    }
    data
}

fn h1() -> [u8; 32] {
    let mut h = [0u8; 32];
    for (k, b) in h.iter_mut().enumerate() {
        *b = (k + 1) as u8;
    }
    h
}

fn h2() -> [u8; 32] {
    [0xff; 32]
}

fn pid(n: u8) -> PrincipalId {
    PrincipalId { hi: n as u128, lo: 0x1111 }
}

fn sample_escrow(query_size: u64, number_of_blocks: u64) -> Escrow {
    Escrow::start_subscription(
        pid(1),
        pid(2),
        42,
        query_size,
        number_of_blocks,
        [0u8; 48],
        [0u8; 96],
        [0u8; 96],
        3600,
    )
    .unwrap()
}

#[test]
fn parse_reads_declared_records() {
    let data = feed_data(&[(17, h1()), (42, h2())]);
    let records = parse_entropy_records(&data, 5).unwrap();
    assert_eq!(records.len(), 2);
    assert_eq!(records[0].0, 17);
    assert_eq!(records[0].1, h1());
    assert_eq!(records[1].0, 42);
    assert_eq!(records[1].1, h2());
}

#[test]
fn parse_respects_limit() {
    let data = feed_data(&[(17, h1()), (42, h2())]);
    let records = parse_entropy_records(&data, 1).unwrap();
    assert_eq!(records.len(), 1);
    assert_eq!(records[0].0, 17);
}

#[test]
fn parse_short_data_is_malformed() {
    assert_eq!(
        parse_entropy_records(&Vec::new(), 1),
        Err(EscrowError::MalformedInput)
    );
    assert_eq!(
        parse_entropy_records(&vec![0u8; 7], 1),
        Err(EscrowError::MalformedInput)
    );
    // Declares two records but carries only one.
    let mut data = feed_data(&[(17, h1())]);
    data[0] = 2;
    assert_eq!(parse_entropy_records(&data, 5), Err(EscrowError::MalformedInput));
}

#[test]
fn challenge_set_concrete_scenario() {
    // query_size = 2, number_of_blocks = 100, feed [(17, H1), (42, H2)]
    // yields [(17 mod 100, reduce(H1)), (42 mod 100, reduce(H2))].
    let records = vec![(17u64, h1()), (42u64, h2())];
    let queries = challenge_set(&records, 2, 100);
    assert_eq!(queries.len(), 2);
    assert_eq!(queries[0].block_index, 17);
    assert_eq!(queries[0].coefficient, reduce_mod_field(h1()));
    // H1 denotes a value already below the field order.
    assert_eq!(queries[0].coefficient, h1());
    assert_eq!(queries[1].block_index, 42);
    assert_eq!(queries[1].coefficient, reduce_mod_field(h2()));
    let reduced_h2: [u8; 32] = [
        0x18, 0x24, 0xb1, 0x59, 0xac, 0xc5, 0x05, 0x6f, 0x99, 0x8c, 0x4f, 0xef, 0xec, 0xbc,
        0x4f, 0xf5, 0x58, 0x84, 0xb7, 0xfa, 0x00, 0x03, 0x48, 0x02, 0x00, 0x00, 0x00, 0x01,
        0xff, 0xff, 0xff, 0xfd,
    ];
    assert_eq!(queries[1].coefficient, reduced_h2);
}

#[test]
fn challenge_set_wraps_block_index() {
    let records = vec![(4217u64, h1())];
    let queries = challenge_set(&records, 1, 100);
    assert_eq!(queries[0].block_index, 17);
}

#[test]
fn challenge_set_takes_min_of_size_and_records() {
    let records = vec![(1u64, h1()), (2u64, h1()), (3u64, h1())];
    assert_eq!(challenge_set(&records, 2, 10).len(), 2);
    assert_eq!(challenge_set(&records, 9, 10).len(), 3);
}

#[test]
fn challenge_generation_deterministic() {
    // The same feed and configuration give the identical challenge set.
    let records = vec![(17u64, h1()), (42u64, h2()), (7u64, h1())];
    let qs1 = challenge_set(&records, 3, 100);
    let qs2 = challenge_set(&records, 3, 100);
    assert_eq!(qs1.len(), qs2.len());
    for k in 0..qs1.len() {
        assert_eq!(qs1[k].block_index, qs2[k].block_index);
        assert_eq!(qs1[k].coefficient, qs2[k].coefficient);
    }
}

#[test]
fn generate_queries_twice_same_feed_same_set() {
    let oracle = pid(9);
    let mut escrow = sample_escrow(2, 100);
    let feed = EntropyFeed { source: oracle, data: feed_data(&[(17, h1()), (42, h2())]) };
    escrow.generate_queries(&feed, oracle, 50).unwrap();
    let first: Vec<(u128, [u8; 32])> =
        escrow.queries.iter().map(|q| (q.block_index, q.coefficient)).collect();
    escrow.generate_queries(&feed, oracle, 90).unwrap();
    let second: Vec<(u128, [u8; 32])> =
        escrow.queries.iter().map(|q| (q.block_index, q.coefficient)).collect();
    assert_eq!(first, second);
    assert_eq!(escrow.queries_generation_time, 90);
}

#[test]
fn generate_queries_rejects_wrong_oracle() {
    let mut escrow = sample_escrow(2, 100);
    let feed = EntropyFeed { source: pid(8), data: feed_data(&[(17, h1())]) };
    assert_eq!(
        escrow.generate_queries(&feed, pid(9), 50),
        Err(EscrowError::EntropySourceMismatch)
    );
    assert_eq!(escrow.queries.len(), 0);
}

#[test]
fn generate_queries_rejects_short_feed() {
    let mut escrow = sample_escrow(2, 100);
    let oracle = pid(9);
    let feed = EntropyFeed { source: oracle, data: vec![3u8, 0, 0, 0, 0, 0, 0, 0, 1, 2] };
    assert_eq!(
        escrow.generate_queries(&feed, oracle, 50),
        Err(EscrowError::MalformedInput)
    );
}
