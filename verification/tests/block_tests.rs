use powchain::block::{hash_meets_difficulty, Block};

fn is_lower_hex(s: &str) -> bool {
    s.chars().all(|c| c.is_ascii_digit() || ('a'..='f').contains(&c))
}

#[test]
fn calculate_hash_is_deterministic() {
    let block = Block::new(0, String::new(), String::from("payload"));
    let first = block.calculate_hash();
    let second = block.calculate_hash();
    assert_eq!(first, second);
    assert_eq!(first, block.hash);
}

#[test]
fn new_block_hash_is_lowercase_hex_of_fixed_width() {
    let block = Block::new(3, String::from("prev"), String::from("some data"));
    assert_eq!(block.hash.len(), 64);
    assert!(is_lower_hex(&block.hash));
    assert_ne!(block.hash, block.preimage());
}

#[test]
fn preimage_is_canonical_json() {
    let block = Block {
        index: 1,
        timestamp: 2,
        proof_of_work: 3,
        previous_hash: String::from("abc"),
        hash: String::from("this field is ignored"),
        data: String::from("hello"),
    };
    assert_eq!(
        block.preimage(),
        "{\"index\":1,\"timestamp\":2,\"proof_of_work\":3,\"previous_hash\":\"abc\",\"hash\":\"\",\"data\":\"hello\"}"
    );
}

#[test]
fn preimage_escapes_json_strings() {
    let block = Block {
        index: 0,
        timestamp: 0,
        proof_of_work: 0,
        previous_hash: String::new(),
        hash: String::new(),
        data: String::from("q\"b\\s\u{8}t\tn\nf\u{c}r\ru\u{1}v\u{1f}e"),
    };
    assert_eq!(
        block.preimage(),
        "{\"index\":0,\"timestamp\":0,\"proof_of_work\":0,\"previous_hash\":\"\",\"hash\":\"\",\"data\":\"q\\\"b\\\\s\\bt\\tn\\nf\\fr\\ru\\u0001v\\u001fe\"}"
    );
}

#[test]
fn preimage_renders_extreme_numbers() {
    let block = Block {
        index: u64::MAX,
        timestamp: 10,
        proof_of_work: 0,
        previous_hash: String::new(),
        hash: String::new(),
        data: String::new(),
    };
    assert_eq!(
        block.preimage(),
        "{\"index\":18446744073709551615,\"timestamp\":10,\"proof_of_work\":0,\"previous_hash\":\"\",\"hash\":\"\",\"data\":\"\"}"
    );
}

#[test]
fn changing_a_field_changes_the_digest() {
    let block = Block::new(7, String::from("prev"), String::from("one"));
    let mut other = block.clone();
    other.data = String::from("two");
    assert_ne!(block.calculate_hash(), other.calculate_hash());
}

#[test]
fn mining_at_difficulty_zero_changes_nothing() {
    let mut block = Block::new(0, String::new(), String::from("genesis block"));
    let before = block.clone();
    block.mine(0);
    assert_eq!(block, before);
}

#[test]
fn mining_finds_a_leading_zero_hash() {
    let mut block = Block::new(1, String::from("prev"), String::from("data"));
    block.mine(1);
    assert!(block.hash.starts_with('0'));
    assert_eq!(block.hash, block.calculate_hash());
}

#[test]
fn difficulty_predicate_counts_leading_zeros() {
    assert!(hash_meets_difficulty("00ab", 0));
    assert!(hash_meets_difficulty("00ab", 1));
    assert!(hash_meets_difficulty("00ab", 2));
    assert!(!hash_meets_difficulty("00ab", 3));
    assert!(!hash_meets_difficulty("00ab", 5));
    assert!(hash_meets_difficulty("", 0));
}
