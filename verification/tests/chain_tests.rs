use powchain::block::Block;
use powchain::blockchain::Blockchain;
use powchain::record::{reconstruct_chain, Model};

#[test]
fn new_chain_holds_one_mined_genesis_block() {
    let chain = Blockchain::new(2);
    assert_eq!(chain.difficulty, 2);
    assert_eq!(chain.chain.len(), 1);
    let genesis = &chain.chain[0];
    assert_eq!(genesis.index, 0);
    assert_eq!(genesis.previous_hash, "");
    assert_eq!(genesis.data, "genesis block");
    assert!(genesis.hash.starts_with("00"));
    assert!(chain.is_chain_valid());
}

#[test]
fn adding_blocks_grows_a_valid_indexed_chain() {
    let mut chain = Blockchain::new(1);
    chain.add_block(String::from("a"));
    chain.add_block(String::from("b"));
    chain.add_block(String::from("c"));
    assert_eq!(chain.chain.len(), 4);
    for (position, block) in chain.chain.iter().enumerate() {
        assert_eq!(block.index, position as u64);
        assert!(block.hash.starts_with('0'));
        assert_eq!(block.hash, block.calculate_hash());
    }
    for i in 1..chain.chain.len() {
        assert_eq!(chain.chain[i].previous_hash, chain.chain[i - 1].hash);
    }
    assert!(chain.is_chain_valid());
}

#[test]
fn add_block_links_to_the_previous_hash() {
    let mut chain = Blockchain::new(2);
    chain.add_block(String::from("hello"));
    assert_eq!(chain.chain.len(), 2);
    assert_eq!(chain.chain[1].previous_hash, chain.chain[0].hash);
    assert!(chain.chain[1].hash.starts_with("00"));
    assert_eq!(chain.chain[1].data, "hello");
    assert!(chain.is_chain_valid());
}

#[test]
fn tampering_with_stored_data_invalidates_the_chain() {
    let mut chain = Blockchain::new(2);
    chain.add_block(String::from("hello"));
    assert!(chain.is_chain_valid());
    chain.chain[0].data = String::from("tampered");
    assert!(!chain.is_chain_valid());
}

#[test]
fn tampering_with_any_single_field_invalidates_the_chain() {
    let fields = ["index", "timestamp", "proof_of_work", "previous_hash", "data"];
    for field in fields {
        let mut chain = Blockchain::new(0);
        chain.add_block(String::from("x"));
        chain.add_block(String::from("y"));
        let target = &mut chain.chain[1];
        match field {
            "index" => target.index += 5,
            "timestamp" => target.timestamp += 1,
            "proof_of_work" => target.proof_of_work += 1,
            "previous_hash" => target.previous_hash = String::from("unrelated"),
            _ => target.data = String::from("changed"),
        }
        assert!(!chain.is_chain_valid(), "chain stayed valid after changing {field}");
    }
}

#[test]
fn breaking_linkage_alone_invalidates_the_chain() {
    let mut chain = Blockchain::new(0);
    chain.add_block(String::from("x"));
    chain.add_block(String::from("y"));
    chain.chain[1].previous_hash = String::from("unrelated");
    chain.chain[1].hash = chain.chain[1].calculate_hash();
    for block in &chain.chain {
        assert_eq!(block.hash, block.calculate_hash());
    }
    assert!(!chain.is_chain_valid());
}

#[test]
fn an_empty_chain_is_valid() {
    let chain = Blockchain { chain: Vec::new(), difficulty: 3 };
    assert!(chain.is_chain_valid());
}

#[test]
fn records_round_trip_to_an_equal_chain() {
    let mut chain = Blockchain::new(1);
    chain.add_block(String::from("first"));
    chain.add_block(String::from("second"));
    let records: Vec<Model> = chain
        .chain
        .iter()
        .enumerate()
        .map(|(i, b)| b.to_record(i as i32 + 1))
        .collect();
    let rebuilt = reconstruct_chain(&records, chain.difficulty).expect("stored chain was valid");
    assert_eq!(rebuilt.difficulty, chain.difficulty);
    assert_eq!(rebuilt.chain, chain.chain);
    assert!(rebuilt.is_chain_valid());
}

#[test]
fn record_conversions_preserve_every_field() {
    let block = Block::new(9, String::from("prev"), String::from("data"));
    let record = block.to_record(42);
    assert_eq!(record.id, 42);
    assert_eq!(record.index, 9);
    assert_eq!(record.previous_hash, block.previous_hash);
    assert_eq!(record.hash, block.hash);
    assert_eq!(record.data, block.data);
    assert_eq!(record.to_block(), block);
}

#[test]
fn reconstructing_from_no_records_yields_nothing() {
    let records: Vec<Model> = Vec::new();
    assert!(reconstruct_chain(&records, 2).is_none());
}

#[test]
fn reconstructing_a_tampered_store_yields_nothing() {
    let mut chain = Blockchain::new(0);
    chain.add_block(String::from("first"));
    let mut records: Vec<Model> = chain
        .chain
        .iter()
        .enumerate()
        .map(|(i, b)| b.to_record(i as i32 + 1))
        .collect();
    records[1].data = String::from("tampered");
    assert!(reconstruct_chain(&records, 0).is_none());
}
