use ethers_aggregates::error::{AggregateError, RemoteCall, SyncError};
use ethers_aggregates::aggregate::checkpoint_file;
use ethers_aggregates::filter::{same_address, LogFilter};
use ethers_aggregates::{CachedAggregate, State};

#[derive(Default, Debug, PartialEq, Clone)]
struct Tally {
    seen: Vec<u32>,
}

impl State for Tally {
    type Events = u32;

    fn applied(self, event: u32) -> Self {
        let mut next = self;
        next.seen.push(event);
        next
    }

    fn verdict(self, _event: u32) -> Result<(), AggregateError> {
        Ok(())
    }

    fn handle(&mut self, event: u32) -> Result<(), AggregateError> {
        self.seen.push(event);
        Ok(())
    }
}

fn factory() -> [u8; 20] {
    [
        0x5c, 0x69, 0xbe, 0xe7, 0x01, 0xef, 0x81, 0x4a, 0x2b, 0x6a, 0x3e, 0xdd, 0x4b, 0x16, 0x52,
        0xcb, 0x9c, 0xc5, 0xaa, 0x6f,
    ]
}

fn fresh(chain: u64, address: [u8; 20], block: u64) -> CachedAggregate<Tally> {
    Tally::from_contract(address, vec![[7u8; 32]], chain, block, None).unwrap()
}

#[test]
fn filename_joins_chain_and_full_address() {
    let agg = fresh(1, factory(), 10_000_835);
    assert_eq!(agg.filename(), "1-0x5c69bee701ef814a2b6a3edd4b1652cb9cc5aa6f.json");
    assert_eq!(
        checkpoint_file(1, &factory()),
        "1-0x5c69bee701ef814a2b6a3edd4b1652cb9cc5aa6f.json"
    );
}

#[test]
fn filename_agrees_with_the_address_type_of_ethers() {
    let address = factory();
    let agg = fresh(137, address, 0);
    let expected = format!("{}-{:#x}.json", 137u64, ethers::types::Address::from(address));
    assert_eq!(agg.filename(), expected);
}

#[test]
fn filename_writes_small_bytes_with_two_digits() {
    let mut address = [0u8; 20];
    address[1] = 0x0a;
    address[18] = 0xf0;
    address[19] = 0x09;
    let agg = fresh(0, address, 0);
    assert_eq!(agg.filename(), "0-0x000a00000000000000000000000000000000f009.json");
}

#[test]
fn filename_writes_the_chain_in_decimal() {
    let ff = "0xffffffffffffffffffffffffffffffffffffffff";
    assert_eq!(fresh(10, [0xff; 20], 0).filename(), format!("10-{}.json", ff));
    assert_eq!(fresh(42161, [0xff; 20], 0).filename(), format!("42161-{}.json", ff));
    assert_eq!(
        fresh(u64::MAX, [0xff; 20], 0).filename(),
        format!("18446744073709551615-{}.json", ff)
    );
}

#[test]
fn filename_tells_apart_addresses_that_differ_in_one_byte() {
    let name = fresh(1, factory(), 0).filename();
    for i in 0..20 {
        let mut other = factory();
        other[i] ^= 0x01;
        assert_ne!(fresh(1, other, 0).filename(), name);
    }
}

#[test]
fn filename_tells_apart_chains() {
    assert_ne!(fresh(1, factory(), 0).filename(), fresh(11, factory(), 0).filename());
    assert_ne!(fresh(1, factory(), 0).filename(), fresh(10, factory(), 0).filename());
}

#[test]
fn filename_does_not_depend_on_block_filter_or_state() {
    let mut agg = fresh(1, factory(), 0);
    let name = agg.filename();
    agg.block_number = 77;
    agg.state.seen.push(3);
    agg.filter.signatures = None;
    agg.filter.address = None;
    assert_eq!(agg.filename(), name);
}

#[test]
fn from_contract_starts_fresh_without_a_stored_snapshot() {
    let agg = Tally::from_contract(factory(), vec![[1u8; 32], [2u8; 32]], 5, 100, None).unwrap();
    assert_eq!(agg.address, factory());
    assert_eq!(agg.chain, 5);
    assert_eq!(agg.block_number, 100);
    assert_eq!(agg.state, Tally::default());
    assert_eq!(agg.filter.address, Some(factory()));
    assert_eq!(agg.filter.signatures, Some(vec![[1u8; 32], [2u8; 32]]));
}

#[test]
fn from_contract_resumes_the_stored_snapshot_verbatim() {
    let mut stored = fresh(5, factory(), 100);
    stored.block_number = 4711;
    stored.state.seen = vec![3, 1, 2];
    let agg = Tally::from_contract(factory(), vec![], 5, 100, Some(Ok(stored))).unwrap();
    assert_eq!(agg.address, factory());
    assert_eq!(agg.chain, 5);
    assert_eq!(agg.block_number, 4711);
    assert_eq!(agg.state.seen, vec![3, 1, 2]);
    assert_eq!(agg.filter.signatures, Some(vec![[7u8; 32]]));
}

#[test]
fn from_contract_does_not_resume_the_snapshot_of_another_emitter() {
    let mut other = factory();
    other[7] = 0;
    let mut stored = fresh(5, other, 100);
    stored.block_number = 4711;
    stored.state.seen = vec![3, 1, 2];
    let agg = Tally::from_contract(factory(), vec![[9u8; 32]], 5, 100, Some(Ok(stored))).unwrap();
    assert_eq!(agg.address, factory());
    assert_eq!(agg.chain, 5);
    assert_eq!(agg.block_number, 100);
    assert_eq!(agg.state, Tally::default());
    assert_eq!(agg.filter.address, Some(factory()));
    assert_eq!(agg.filter.signatures, Some(vec![[9u8; 32]]));
}

#[test]
fn from_contract_does_not_resume_the_snapshot_of_another_chain() {
    let mut stored = fresh(6, factory(), 100);
    stored.block_number = 4711;
    stored.state.seen = vec![3];
    let agg = Tally::from_contract(factory(), vec![], 5, 100, Some(Ok(stored))).unwrap();
    assert_eq!(agg.chain, 5);
    assert_eq!(agg.block_number, 100);
    assert_eq!(agg.state, Tally::default());
}

#[test]
fn from_contract_hands_on_the_failure_to_read_a_snapshot() {
    let broken = serde_json::from_str::<u32>("{").unwrap_err();
    let text = broken.to_string();
    let stored = Some(Err(AggregateError::from(broken)));
    match Tally::from_contract(factory(), vec![], 5, 100, stored) {
        Err(AggregateError::SerdeError(e)) => assert_eq!(e.to_string(), text),
        _ => panic!("the failure was not handed on"),
    }
}

#[test]
fn the_default_snapshot_is_of_no_emitter_in_particular() {
    let agg = CachedAggregate::<Tally>::default();
    assert_eq!(agg.address, [0u8; 20]);
    assert_eq!(agg.chain, 1);
    assert_eq!(agg.block_number, 0);
    assert_eq!(agg.filter.address, None);
    assert_eq!(agg.filter.signatures, None);
    assert_eq!(agg.state, Tally::default());
    assert_eq!(agg.filename(), "1-0x0000000000000000000000000000000000000000.json");
    let filter = LogFilter::default();
    assert_eq!(filter.address, None);
    assert_eq!(filter.signatures, None);
}

#[test]
fn addresses_are_the_same_where_every_byte_is() {
    assert!(same_address(&factory(), &factory()));
    for i in 0..20 {
        let mut other = factory();
        other[i] = other[i].wrapping_add(1);
        assert!(!same_address(&factory(), &other));
    }
}

#[test]
fn io_failures_become_io_errors() {
    let e = std::io::Error::new(std::io::ErrorKind::Other, "disk full");
    assert!(matches!(AggregateError::from(e), AggregateError::IoError(_)));
}

#[test]
fn serde_failures_become_serde_errors() {
    let e = serde_json::from_str::<u32>("x").unwrap_err();
    assert!(matches!(AggregateError::from(e), AggregateError::SerdeError(_)));
}

#[test]
fn a_failed_height_query_is_reported_in_words() {
    let e = SyncError::RemoteSource {
        call: RemoteCall::HeightQuery,
        message: String::from("connection refused"),
    };
    match e.into_aggregate() {
        AggregateError::Error(text) => {
            assert_eq!(text, "Error getting latest block: connection refused")
        }
        _ => panic!("not a described fault"),
    }
}

#[test]
fn a_failed_page_is_reported_in_words() {
    let e = SyncError::RemoteSource {
        call: RemoteCall::PageFetch,
        message: String::from("timeout"),
    };
    match e.into_aggregate() {
        AggregateError::Error(text) => assert_eq!(text, "Error getting logs: timeout"),
        _ => panic!("not a described fault"),
    }
}

#[test]
fn a_rejection_and_a_failed_save_hand_out_their_cause() {
    let rejected = SyncError::StateApply(AggregateError::Error(String::from("no")));
    assert!(matches!(rejected.into_aggregate(), AggregateError::Error(text) if text == "no"));
    let io = std::io::Error::new(std::io::ErrorKind::Other, "disk full");
    let failed = SyncError::Persist(AggregateError::IoError(io));
    assert!(
        matches!(failed.into_aggregate(), AggregateError::IoError(e) if e.to_string() == "disk full")
    );
}
