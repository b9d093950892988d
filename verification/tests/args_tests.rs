use exerciser::args::{parse, Args};
use exerciser::rng::resolve_seed;

fn bytes(s: &str) -> Vec<u8> {
    s.as_bytes().to_vec()
}

#[test]
fn parse_reads_plain_decimals() {
    assert_eq!(parse(&bytes("123")), Some(123));
    assert_eq!(parse(&bytes("0")), Some(0));
    assert_eq!(parse(&bytes("007")), Some(7));
}

#[test]
fn parse_rejects_what_is_not_a_number() {
    assert_eq!(parse(&bytes("")), None);
    assert_eq!(parse(&bytes("12a")), None);
    assert_eq!(parse(&bytes("-3")), None);
    assert_eq!(parse(&bytes(" 3")), None);
}

#[test]
fn parse_handles_the_64_bit_boundary() {
    assert_eq!(parse(&bytes("18446744073709551615")), Some(u64::MAX));
    assert_eq!(parse(&bytes("18446744073709551616")), None);
    assert_eq!(parse(&bytes("99999999999999999999999999")), None);
}

#[test]
fn defaults_match_the_usage_text() {
    let a = Args::default();
    assert_eq!(a.path, bytes("nats-server"));
    assert_eq!(a.seed, None);
    assert_eq!(a.clients, 2);
    assert_eq!(a.servers, 3);
    assert_eq!(a.steps, 10000);
}

#[test]
fn every_option_is_recognised() {
    let raw = vec![
        bytes("--path=/tmp/queue-server"),
        bytes("--seed=42"),
        bytes("--clients=1"),
        bytes("--servers=4"),
        bytes("--steps=100"),
    ];
    let a = Args::parse(&raw).expect("all options are well-formed");
    assert_eq!(a.path, bytes("/tmp/queue-server"));
    assert_eq!(a.seed, Some(42));
    assert_eq!(a.clients, 1);
    assert_eq!(a.servers, 4);
    assert_eq!(a.steps, 100);
}

#[test]
fn no_options_means_the_defaults() {
    let raw: Vec<Vec<u8>> = vec![];
    let a = Args::parse(&raw).expect("an empty command line is fine");
    assert_eq!(a.seed, None);
    assert_eq!(a.servers, 3);
}

#[test]
fn unknown_or_malformed_options_are_rejected() {
    assert!(Args::parse(&vec![bytes("--frequency=3")]).is_none());
    assert!(Args::parse(&vec![bytes("--seed")]).is_none());
    assert!(Args::parse(&vec![bytes("--seed=")]).is_none());
    assert!(Args::parse(&vec![bytes("--seed=abc")]).is_none());
    assert!(Args::parse(&vec![bytes("seed=42")]).is_none());
    assert!(Args::parse(&vec![bytes("-")]).is_none());
    assert!(Args::parse(&vec![bytes("--clients=300")]).is_none());
    assert!(Args::parse(&vec![bytes("--servers=300")]).is_none());
}

#[test]
fn only_the_first_value_segment_counts() {
    let a = Args::parse(&vec![bytes("--seed=42=7")]).expect("the trailing segment is ignored");
    assert_eq!(a.seed, Some(42));
}

#[test]
fn a_supplied_seed_is_kept() {
    assert_eq!(resolve_seed(Some(5)), 5);
}
