use holochain_core::address::Address;
use holochain_core::cas::{Content, ContentStore};
use holochain_core::chain::{Chain, ChainIterator, SourceChain};
use holochain_core::entry::Entry;
use holochain_core::header::ChainHeader;

fn test_type_a() -> String {
    "testEntryType".to_string()
}

fn test_type_b() -> String {
    "testEntryTypeB".to_string()
}

fn test_entry() -> Entry {
    Entry::new("testEntryType", "test entry content")
}

fn test_entry_a() -> Entry {
    test_entry()
}

fn test_entry_b() -> Entry {
    Entry::new("testEntryTypeB", "other test entry content")
}

fn test_chain() -> Chain {
    Chain::new(ContentStore::new())
}

fn push(chain: &mut Chain, entry: &Entry) -> ChainHeader {
    chain
        .push_entry(&entry.header(), entry)
        .expect("pushing a valid entry to an exlusively owned chain shouldn't fail")
}

fn collect(chain: &Chain) -> Vec<ChainHeader> {
    chain.iter().collect()
}

#[test]
fn new() {
    let chain = test_chain();
    assert_eq!(Ok(None), chain.top_chain_header());
}

#[test]
fn eq() {
    let mut chain1 = test_chain();
    let mut chain2 = test_chain();
    let mut chain3 = test_chain();

    let entry_a = test_entry_a();
    let entry_b = test_entry_b();

    push(&mut chain1, &entry_a);
    push(&mut chain2, &entry_a);
    push(&mut chain3, &entry_b);

    assert_eq!(chain1.top_chain_header(), chain2.top_chain_header());
    assert!(chain1 == chain2);

    assert!(chain1 != chain3);
    assert!(chain2 != chain3);
}

#[test]
fn top_pair() {
    let mut chain = test_chain();

    assert_eq!(
        None,
        chain
            .top_chain_header()
            .expect("could not get top pair from test chain")
    );

    let entry_a = test_entry_a();
    let entry_b = test_entry_b();

    let pair_a = push(&mut chain, &entry_a);
    assert_eq!(Some(entry_a.clone()), chain.entry(&pair_a.entry_address()));
    let top_pair = chain.top_chain_header().expect("should have commited entry");
    assert_eq!(Some(pair_a), top_pair);

    let pair_b = push(&mut chain, &entry_b);
    assert_eq!(Some(entry_b.clone()), chain.entry(&pair_b.entry_address()));
    let top_pair = chain.top_chain_header().expect("should have commited entry");
    assert_eq!(Some(pair_b), top_pair);
}

#[test]
fn table_put() {
    let mut chain = Chain::new(ContentStore::new());

    let pair = push(&mut chain, &test_entry());

    let table_entry = chain
        .table()
        .get(&pair.entry_address())
        .expect("table should have entry")
        .clone();
    let chain_entry = chain
        .entry(&pair.entry_address())
        .expect("getting an entry from a chain shouldn't fail");

    assert_eq!(Content::Entry(test_entry()), table_entry);
    assert_eq!(table_entry, Content::Entry(chain_entry));
    assert_eq!(
        Some(&Content::Header(pair.clone())),
        chain.table().get(&pair.address())
    );
}

#[test]
fn can_commit_entry() {
    let mut chain = test_chain();

    assert_eq!(
        None,
        chain
            .top_chain_header()
            .expect("could not get top pair for test chain")
    );

    let entry_1 = test_entry_a();
    let pair_1 = push(&mut chain, &entry_1);

    assert_eq!(
        Some(&pair_1),
        chain
            .top_chain_header()
            .expect("could not get top pair for pair 1")
            .as_ref()
    );
    assert_eq!(Some(entry_1.clone()), chain.entry(&pair_1.entry_address()));
    assert_eq!(entry_1.address(), pair_1.entry_address());

    let entry_2 = test_entry_b();
    let pair_2 = push(&mut chain, &entry_2);

    assert_eq!(
        Some(&pair_2),
        chain
            .top_chain_header()
            .expect("could not get top pair for pair 2")
            .as_ref()
    );
    assert_eq!(Some(entry_2.clone()), chain.entry(&pair_2.entry_address()));
    assert_eq!(entry_2.address(), pair_2.entry_address());
}

#[test]
fn validate() {
    println!("can_validate: Empty Chain");
    let mut chain = test_chain();
    assert!(chain.validate());

    println!("can_validate: Chain One");
    let e1 = test_entry_a();
    push(&mut chain, &e1);
    assert!(chain.validate());

    println!("can_validate: Chain with Two");
    let e2 = test_entry_b();
    push(&mut chain, &e2);
    assert!(chain.validate());
    assert!(chain.table().validate());
}

#[test]
fn round_trip() {
    let mut chain = test_chain();
    let entry = test_entry();
    let pair = push(&mut chain, &entry);

    assert_eq!(
        entry,
        chain
            .entry(&pair.entry_address())
            .expect("getting an entry from a chain shouldn't fail"),
    );
}

#[test]
fn round_trip_stress_test() {
    let mut chain = test_chain();
    let entry = test_entry();

    for _ in 1..100 {
        let pair = push(&mut chain, &entry);
        assert_eq!(Some(entry.clone()), chain.entry(&pair.entry_address()));
    }
}

#[test]
fn iter() {
    let mut chain = test_chain();

    let e1 = test_entry_a();
    let e2 = test_entry_b();

    let p1 = push(&mut chain, &e1);
    let p2 = push(&mut chain, &e2);

    assert_eq!(vec![p2, p1], collect(&chain));
}

#[test]
fn iter_functional() {
    let mut chain = test_chain();

    let e1 = test_entry_a();
    let e2 = test_entry_b();

    let p1 = push(&mut chain, &e1);
    let _p2 = push(&mut chain, &e2);
    let p3 = push(&mut chain, &e1);

    assert_eq!(
        vec![p3, p1],
        collect(&chain)
            .into_iter()
            .filter(|p| p.entry_type() == "testEntryType")
            .collect::<Vec<ChainHeader>>()
    );
}

#[test]
fn entry_advance() {
    let mut chain = test_chain();

    let e1 = test_entry_a();
    let e2 = test_entry_b();

    let p1 = push(&mut chain, &e1);
    let p2 = push(&mut chain, &e2);

    assert_eq!(
        e1.clone(),
        chain
            .entry(&p1.entry_address())
            .expect("getting an entry from a chain shouldn't fail"),
    );

    let p3 = push(&mut chain, &e1);

    assert_eq!(None, chain.entry(&Address::new()));
    assert_eq!(
        e1.clone(),
        chain
            .entry(&p1.entry_address())
            .expect("getting an entry from a chain shouldn't fail"),
    );
    assert_eq!(
        e2.clone(),
        chain
            .entry(&p2.entry_address())
            .expect("getting an entry from a chain shouldn't fail"),
    );
    assert_eq!(
        e1.clone(),
        chain
            .entry(&p3.entry_address())
            .expect("getting an entry from a chain shouldn't fail"),
    );

    assert_eq!(
        p1,
        chain
            .header(&p1.address())
            .expect("getting an entry from a chain shouldn't fail"),
    );
    assert_eq!(
        p2,
        chain
            .header(&p2.address())
            .expect("getting an entry from a chain shouldn't fail"),
    );
    assert_eq!(
        p3,
        chain
            .header(&p3.address())
            .expect("getting an entry from a chain shouldn't fail"),
    );
}

#[test]
fn entry() {
    let mut chain = test_chain();

    let e1 = test_entry_a();
    let e2 = test_entry_b();

    let p1 = push(&mut chain, &e1);
    let p2 = push(&mut chain, &e2);
    let p3 = push(&mut chain, &e1);

    assert_eq!(None, chain.entry(&Address::new()));
    assert_eq!(
        e1.clone(),
        chain
            .entry(&p1.entry_address())
            .expect("getting an entry from a chain shouldn't fail"),
    );
    assert_eq!(
        e2.clone(),
        chain
            .entry(&p2.entry_address())
            .expect("getting an entry from a chain shouldn't fail"),
    );
    assert_eq!(
        e1.clone(),
        chain
            .entry(&p3.entry_address())
            .expect("getting an entry from a chain shouldn't fail"),
    );
}

#[test]
fn top_pair_of_type() {
    let mut chain = test_chain();

    assert_eq!(None, chain.top_chain_header_of_type(&test_type_a()));
    assert_eq!(None, chain.top_chain_header_of_type(&test_type_b()));

    let entry1 = test_entry_a();
    let entry2 = test_entry_b();

    let pair1 = push(&mut chain, &entry1);
    assert_eq!(
        Some(&pair1),
        chain.top_chain_header_of_type(&test_type_a()).as_ref()
    );
    assert_eq!(None, chain.top_chain_header_of_type(&test_type_b()));

    let pair2 = push(&mut chain, &entry2);
    assert_eq!(
        Some(&pair1),
        chain.top_chain_header_of_type(&test_type_a()).as_ref()
    );
    assert_eq!(
        Some(&pair2),
        chain.top_chain_header_of_type(&test_type_b()).as_ref()
    );

    let pair3 = push(&mut chain, &entry1);

    assert_eq!(
        Some(&pair3),
        chain.top_chain_header_of_type(&test_type_a()).as_ref()
    );
    assert_eq!(
        Some(&pair2),
        chain.top_chain_header_of_type(&test_type_b()).as_ref()
    );
}

#[test]
fn into_iter() {
    let mut chain = test_chain();

    let e1 = test_entry_a();
    let e2 = test_entry_b();

    let p1 = push(&mut chain, &e1);
    let p2 = push(&mut chain, &e2);
    let p3 = push(&mut chain, &e1);

    let top = chain.top_chain_header().expect("could not get top pair");
    let mut walk = ChainIterator::new(chain.table(), &top);
    let mut seen = Vec::new();
    while let Some(header) = walk.next() {
        seen.push(header);
    }
    assert_eq!(vec![p3, p2, p1], seen);
}

#[test]
fn json_round_trip() {
    let mut chain = test_chain();

    let e1 = test_entry_a();
    let e2 = test_entry_b();

    push(&mut chain, &e1);
    push(&mut chain, &e2);
    push(&mut chain, &e1);

    let expected_json = "[{\"header\":{\"entry_type\":\"testEntryType\",\"timestamp\":\"\",\"link\":\"QmdEVL9whBj1Tr9VoR6BzmVjrgyPdN5vJ2bbdQdwwfQ9Uq\",\"entry_hash\":\"QmbXSE38SN3SuJDmHKSSw5qWWegvU7oTxrLDRavWjyxMrT\",\"entry_signature\":\"\",\"link_same_type\":\"QmU8vuUfCQGBb8SUdWjKqmSmsWwXBn4AJPb3HLb8cqWtYn\"},\"entry\":{\"content\":\"test entry content\",\"entry_type\":\"testEntryType\"}},{\"header\":{\"entry_type\":\"testEntryTypeB\",\"timestamp\":\"\",\"link\":\"QmU8vuUfCQGBb8SUdWjKqmSmsWwXBn4AJPb3HLb8cqWtYn\",\"entry_hash\":\"QmPz5jKXsxq7gPVAbPwx5gD2TqHfqB8n25feX5YH18JXrT\",\"entry_signature\":\"\",\"link_same_type\":null},\"entry\":{\"content\":\"other test entry content\",\"entry_type\":\"testEntryTypeB\"}},{\"header\":{\"entry_type\":\"testEntryType\",\"timestamp\":\"\",\"link\":null,\"entry_hash\":\"QmbXSE38SN3SuJDmHKSSw5qWWegvU7oTxrLDRavWjyxMrT\",\"entry_signature\":\"\",\"link_same_type\":null},\"entry\":{\"content\":\"test entry content\",\"entry_type\":\"testEntryType\"}}]"
    ;
    assert_eq!(
        expected_json,
        chain.to_json().expect("chain shouldn't fail to serialize")
    );

    let imported = Chain::import_from_json(ContentStore::new(), expected_json);
    assert!(chain == imported);
    assert_eq!(collect(&chain), collect(&imported));
}
