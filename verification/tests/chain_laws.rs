use holochain_core::address::Address;
use holochain_core::cas::{Content, ContentStore};
use holochain_core::chain::actor::{ChainActor, ChainReply, ChainRequest};
use holochain_core::chain::{Chain, ChainIterator, SourceChain};
use holochain_core::entry::{Entry, EntryHeader};
use holochain_core::error::HolochainError;
use holochain_core::header::ChainHeader;

fn fresh() -> Chain {
    Chain::new(ContentStore::new())
}

fn push(chain: &mut Chain, entry: &Entry) -> ChainHeader {
    chain
        .push_entry(&entry.header(), entry)
        .expect("the push should be accepted")
}

#[test]
fn scenario_types_a_b_a() {
    let mut chain = fresh();
    let first_a = Entry::new("A", "first content of A");
    let b = Entry::new("B", "content of B");
    let second_a = Entry::new("A", "second content of A");

    let h1 = push(&mut chain, &first_a);
    let h2 = push(&mut chain, &b);
    let h3 = push(&mut chain, &second_a);

    assert_eq!(Some(h3.clone()), chain.top_chain_header_of_type("A"));
    assert_eq!(Some(h2.clone()), chain.top_chain_header_of_type("B"));
    assert_eq!(None, chain.top_chain_header_of_type("C"));
    assert_eq!(Some(first_a.clone()), chain.entry(&h1.entry_address()));
    assert_eq!(Some(first_a), chain.entry(&Address::encode_from_str("first content of A")));

    assert_eq!(None, h1.link());
    assert_eq!(None, h1.link_same_type());
    assert_eq!(Some(h1.address()), h2.link());
    assert_eq!(None, h2.link_same_type());
    assert_eq!(Some(h2.address()), h3.link());
    assert_eq!(Some(h1.address()), h3.link_same_type());
    assert_eq!("", h3.timestamp());
    assert_eq!("", h3.entry_signature());
}

#[test]
fn headers_come_out_in_reverse_push_order() {
    let mut chain = fresh();
    let mut pushed = Vec::new();
    for i in 0..7 {
        let entry = Entry::new("numbered", &format!("content {}", i));
        pushed.push(push(&mut chain, &entry));
        assert_eq!(Ok(pushed.last().cloned()), chain.top_chain_header());
    }
    pushed.reverse();
    assert_eq!(pushed, chain.iter().collect());
}

#[test]
fn empty_chain_has_no_headers() {
    let chain = fresh();
    assert_eq!(Vec::<ChainHeader>::new(), chain.iter().collect());
    let mut walk = chain.iter();
    assert_eq!(None, walk.next());
    assert_eq!(None, walk.next());
    let mut walk = ChainIterator::new(chain.table(), &None);
    assert_eq!(None, walk.next());
}

#[test]
fn hundred_pushes_leave_hundred_headers() {
    let mut chain = fresh();
    let mut last = None;
    for i in 0..100 {
        let entry = Entry::new("stress", &format!("entry number {}", i));
        last = Some(push(&mut chain, &entry));
    }
    let headers = chain.iter().collect();
    assert_eq!(100, headers.len());
    assert_eq!(Ok(last), chain.top_chain_header());
    assert_eq!(200, chain.table().len());
    for (i, header) in headers.iter().rev().enumerate() {
        assert_eq!(
            Some(Entry::new("stress", &format!("entry number {}", i))),
            chain.entry(&header.entry_address())
        );
    }
}

#[test]
fn empty_chains_are_equal_until_one_is_pushed_to() {
    let mut first = fresh();
    let mut second = fresh();
    assert!(first == second);

    let entry = Entry::new("testEntryType", "test entry content");
    push(&mut first, &entry);
    assert!(first != second);

    push(&mut second, &entry);
    assert!(first == second);

    push(&mut second, &entry);
    assert!(first != second);
}

#[test]
fn next_header_is_drafted_without_changing_the_chain() {
    let mut chain = fresh();
    let entry = Entry::new("testEntryType", "test entry content");
    let drafted = chain.create_next_chain_header(&entry.header());
    assert_eq!(Ok(None), chain.top_chain_header());
    assert_eq!(
        ChainHeader::new("testEntryType", "", None, &entry.address(), "", None),
        drafted
    );
    let pushed = push(&mut chain, &entry);
    assert_eq!(drafted, pushed);

    let next = chain.create_next_chain_header(&entry.header());
    assert_eq!(
        ChainHeader::new(
            "testEntryType",
            "",
            Some(pushed.address()),
            &entry.address(),
            "",
            Some(pushed.address()),
        ),
        next
    );
    assert_eq!(Ok(Some(pushed)), chain.top_chain_header());
}

#[test]
fn push_refuses_a_draft_that_does_not_describe_the_entry() {
    let mut chain = fresh();
    let entry = Entry::new("testEntryType", "test entry content");
    let wrong_type = EntryHeader::new("testEntryTypeB", &entry.address());
    let wrong_address = EntryHeader::new("testEntryType", &Address::from_text("elsewhere"));
    assert_eq!(
        Err(HolochainError::ChainConsistencyError),
        chain.push_entry(&wrong_type, &entry)
    );
    assert_eq!(
        Err(HolochainError::ChainConsistencyError),
        chain.push_entry(&wrong_address, &entry)
    );
    assert_eq!(Ok(None), chain.top_chain_header());
    assert_eq!(0, chain.table().len());
}

#[test]
fn push_refuses_the_same_content_under_another_type() {
    let mut chain = fresh();
    let entry = Entry::new("testEntryType", "test entry content");
    let pushed = push(&mut chain, &entry);
    let diverging = Entry::new("testEntryTypeB", "test entry content");
    assert_eq!(
        Err(HolochainError::ChainConsistencyError),
        chain.push_entry(&diverging.header(), &diverging)
    );
    assert_eq!(Ok(Some(pushed)), chain.top_chain_header());
    assert_eq!(Some(entry), chain.entry(&diverging.address()));
    assert_eq!(2, chain.table().len());
}

#[test]
fn push_refuses_an_entry_that_stands_where_a_header_stands() {
    let mut chain = fresh();
    let entry = Entry::new("testEntryType", "test entry content");
    let pushed = push(&mut chain, &entry);
    let disguised = Entry::new("testEntryType", &pushed.content());
    assert_eq!(pushed.address(), disguised.address());
    assert_eq!(
        Err(HolochainError::ChainConsistencyError),
        chain.push_entry(&disguised.header(), &disguised)
    );
    assert_eq!(Ok(Some(pushed)), chain.top_chain_header());
}

#[test]
fn chain_over_a_store_that_already_holds_the_contents() {
    let mut store = ContentStore::new();
    let entry = Entry::new("testEntryType", "test entry content");
    store.put(Content::Entry(entry.clone()));
    store.put(Content::Header(ChainHeader::new(
        "testEntryType",
        "",
        None,
        &entry.address(),
        "",
        None,
    )));
    let mut chain = Chain::new(store);
    assert_eq!(Ok(None), chain.top_chain_header());
    let pushed = push(&mut chain, &entry);
    assert_eq!(Ok(Some(pushed)), chain.top_chain_header());
    assert_eq!(2, chain.table().len());
}

#[test]
fn entry_lookup_finds_entries_only() {
    let mut chain = fresh();
    let entry = Entry::new("testEntryType", "test entry content");
    let pushed = push(&mut chain, &entry);
    assert_eq!(Some(entry), chain.entry(&pushed.entry_address()));
    assert_eq!(None, chain.entry(&pushed.address()));
    assert_eq!(Some(pushed.clone()), chain.header(&pushed.address()));
    assert_eq!(None, chain.header(&pushed.entry_address()));
    assert_eq!(None, chain.header(&Address::new()));
}

#[test]
fn head_is_set_to_whatever_is_given() {
    let mut chain = fresh();
    let e1 = Entry::new("testEntryType", "test entry content");
    let e2 = Entry::new("testEntryTypeB", "other test entry content");
    let h1 = push(&mut chain, &e1);
    let h2 = push(&mut chain, &e2);
    let h3 = push(&mut chain, &e1);
    assert!(chain.validate());

    assert_eq!(
        Ok(Some(h3.clone())),
        chain.set_top_chain_header(&Some(h2.clone()))
    );
    assert_eq!(Ok(Some(h2.clone())), chain.top_chain_header());
    assert!(!chain.validate());
    assert_eq!(vec![h2.clone(), h1.clone()], chain.iter().collect());

    assert_eq!(
        Ok(Some(h2.clone())),
        chain.set_top_chain_header(&Some(h3.clone()))
    );
    assert_eq!(Ok(Some(h3.clone())), chain.top_chain_header());
    assert_eq!(
        vec![h3.clone(), h2.clone(), h1.clone()],
        chain.iter().collect()
    );

    let stranger = ChainHeader::new("x", "", None, &Address::from_text("y"), "", None);
    let stored = chain.table().len();
    assert_eq!(
        Ok(Some(h3.clone())),
        chain.set_top_chain_header(&Some(stranger.clone()))
    );
    assert_eq!(Ok(Some(stranger.clone())), chain.top_chain_header());
    assert_eq!(stored, chain.table().len());
    assert_eq!(None, chain.header(&stranger.address()));
    assert_eq!(vec![stranger.clone()], chain.iter().collect());

    assert_eq!(Ok(Some(stranger)), chain.set_top_chain_header(&None));
    assert_eq!(Ok(None), chain.top_chain_header());
    assert!(chain.validate());
    assert_eq!(Ok(None), chain.set_top_chain_header(&None));
    assert_eq!(h1, push(&mut chain, &e1));
}

#[test]
fn head_set_after_the_chain_was_emptied() {
    let mut chain = fresh();
    let a = Entry::new("A", "content of a");
    let b = Entry::new("B", "content of b");
    let header_a = push(&mut chain, &a);
    assert_eq!(Ok(Some(header_a.clone())), chain.set_top_chain_header(&None));
    let header_b = push(&mut chain, &b);
    assert_eq!(None, header_b.link());
    assert_eq!(
        Ok(Some(header_b)),
        chain.set_top_chain_header(&Some(header_a.clone()))
    );
    assert_eq!(Ok(Some(header_a.clone())), chain.top_chain_header());
    assert_eq!(vec![header_a], chain.iter().collect());
}

#[test]
fn a_walk_starts_at_any_header_whose_links_are_stored() {
    let store = ContentStore::new();
    let alone = ChainHeader::new("x", "", None, &Address::from_text("y"), "", None);
    let mut walk = ChainIterator::new(&store, &Some(alone.clone()));
    assert_eq!(Some(alone), walk.next());
    assert_eq!(None, walk.next());

    let mut chain = fresh();
    let entry = Entry::new("testEntryType", "test entry content");
    let first = push(&mut chain, &entry);
    let on_top = ChainHeader::new(
        "z",
        "later",
        Some(first.address()),
        &Address::from_text("nowhere"),
        "signed",
        None,
    );
    let mut walk = ChainIterator::new(chain.table(), &Some(on_top.clone()));
    assert_eq!(Some(on_top), walk.next());
    assert_eq!(Some(first), walk.next());
    assert_eq!(None, walk.next());
}

#[test]
fn chain_actor_holds_the_head() {
    let mut actor = ChainActor::new();
    assert_eq!(None, actor.get_head());
    assert_eq!(None, actor.set_head(Some(Address::from_text("a"))));
    assert_eq!(Some(Address::from_text("a")), actor.get_head());
    assert_eq!(
        Some(Address::from_text("a")),
        actor.set_head(Some(Address::from_text("b")))
    );
    assert_eq!(Some(Address::from_text("b")), actor.set_head(None));
    assert_eq!(None, actor.get_head());
}

#[test]
fn chain_answers_requests() {
    let mut chain = fresh();
    let entry = Entry::new("testEntryType", "test entry content");
    assert_eq!(
        ChainReply::TopChainHeader(Ok(None)),
        chain.receive(&ChainRequest::TopChainHeader)
    );
    let drafted = ChainReply::into_next_chain_header(Some(
        chain.receive(&ChainRequest::CreateNextChainHeader(entry.header())),
    ))
    .expect("the chain is unbroken");
    let reply = chain.receive(&ChainRequest::PushEntry(entry.header(), entry.clone()));
    let pushed = ChainReply::into_pushed(Some(reply)).expect("the push should be accepted");
    assert_eq!(drafted, pushed);
    assert_eq!(
        ChainReply::TopChainHeader(Ok(Some(pushed.clone()))),
        chain.receive(&ChainRequest::TopChainHeader)
    );
    assert_eq!(
        ChainReply::TopChainHeaderOfType(Ok(Some(pushed.clone()))),
        chain.receive(&ChainRequest::TopChainHeaderOfType("testEntryType".to_string()))
    );
    assert_eq!(
        ChainReply::TopChainHeaderOfType(Ok(None)),
        chain.receive(&ChainRequest::TopChainHeaderOfType("testEntryTypeB".to_string()))
    );
    assert_eq!(
        ChainReply::GetEntry(Some(entry.clone())),
        chain.receive(&ChainRequest::GetEntry(entry.address()))
    );
    assert_eq!(
        ChainReply::GetEntry(None),
        chain.receive(&ChainRequest::GetEntry(Address::new()))
    );
    assert_eq!(
        ChainReply::Headers(Ok(vec![pushed.clone()])),
        chain.receive(&ChainRequest::Headers)
    );
    assert_eq!(
        ChainReply::Export(chain.to_json()),
        chain.receive(&ChainRequest::Export)
    );
    let wrong = EntryHeader::new("testEntryTypeB", &entry.address());
    assert_eq!(
        ChainReply::PushEntry(Err(HolochainError::ChainConsistencyError)),
        chain.receive(&ChainRequest::PushEntry(wrong, entry))
    );
}

#[test]
fn chain_with_a_head_set_by_hand_answers_what_needs_no_walk() {
    let mut chain = fresh();
    let entry = Entry::new("testEntryType", "test entry content");
    let pushed = push(&mut chain, &entry);
    let stranger = ChainHeader::new("x", "", Some(Address::from_text("lost")), &entry.address(), "", None);
    assert_eq!(
        Ok(Some(pushed)),
        chain.set_top_chain_header(&Some(stranger.clone()))
    );
    let broken = HolochainError::ChainConsistencyError;
    assert_eq!(
        ChainReply::TopChainHeader(Ok(Some(stranger))),
        chain.receive(&ChainRequest::TopChainHeader)
    );
    assert_eq!(
        ChainReply::GetEntry(Some(entry.clone())),
        chain.receive(&ChainRequest::GetEntry(entry.address()))
    );
    assert_eq!(
        ChainReply::TopChainHeaderOfType(Err(broken)),
        chain.receive(&ChainRequest::TopChainHeaderOfType("x".to_string()))
    );
    assert_eq!(
        ChainReply::CreateNextChainHeader(Err(broken)),
        chain.receive(&ChainRequest::CreateNextChainHeader(entry.header()))
    );
    assert_eq!(
        ChainReply::PushEntry(Err(broken)),
        chain.receive(&ChainRequest::PushEntry(entry.header(), entry))
    );
    assert_eq!(
        ChainReply::Headers(Err(broken)),
        chain.receive(&ChainRequest::Headers)
    );
    assert_eq!(
        ChainReply::Export(Err(broken)),
        chain.receive(&ChainRequest::Export)
    );
}

#[test]
fn missing_reply_means_the_store_is_unavailable() {
    let entry = Entry::new("testEntryType", "test entry content");
    let header = ChainHeader::new("testEntryType", "", None, &entry.address(), "", None);
    let unavailable = HolochainError::StoreUnavailable;

    assert_eq!(Err(unavailable), ChainReply::into_top_chain_header(None));
    assert_eq!(
        Err(unavailable),
        ChainReply::into_top_chain_header(Some(ChainReply::GetEntry(None)))
    );
    assert_eq!(
        Ok(Some(header.clone())),
        ChainReply::into_top_chain_header(Some(ChainReply::TopChainHeader(Ok(Some(
            header.clone()
        )))))
    );

    assert_eq!(
        Err(unavailable),
        ChainReply::into_top_chain_header_of_type(None)
    );
    assert_eq!(
        Ok(Some(header.clone())),
        ChainReply::into_top_chain_header_of_type(Some(ChainReply::TopChainHeaderOfType(Ok(
            Some(header.clone())
        ))))
    );
    assert_eq!(
        Err(HolochainError::ChainConsistencyError),
        ChainReply::into_top_chain_header_of_type(Some(ChainReply::TopChainHeaderOfType(Err(
            HolochainError::ChainConsistencyError
        ))))
    );

    assert_eq!(Err(unavailable), ChainReply::into_next_chain_header(None));
    assert_eq!(
        Ok(header.clone()),
        ChainReply::into_next_chain_header(Some(ChainReply::CreateNextChainHeader(Ok(
            header.clone()
        ))))
    );

    assert_eq!(Err(unavailable), ChainReply::into_pushed(None));
    assert_eq!(
        Err(unavailable),
        ChainReply::into_pushed(Some(ChainReply::TopChainHeader(Ok(None))))
    );
    assert_eq!(
        Ok(header.clone()),
        ChainReply::into_pushed(Some(ChainReply::PushEntry(Ok(header.clone()))))
    );

    assert_eq!(Err(unavailable), ChainReply::into_entry(None));
    assert_eq!(
        Ok(Some(entry.clone())),
        ChainReply::into_entry(Some(ChainReply::GetEntry(Some(entry))))
    );

    assert_eq!(Err(unavailable), ChainReply::into_headers(None));
    assert_eq!(
        Ok(vec![header.clone()]),
        ChainReply::into_headers(Some(ChainReply::Headers(Ok(vec![header.clone()]))))
    );

    assert_eq!(Err(unavailable), ChainReply::into_export(None));
    assert_eq!(
        Ok("[]".to_string()),
        ChainReply::into_export(Some(ChainReply::Export(Ok("[]".to_string()))))
    );
    assert_eq!(
        ChainReply::Headers(Ok(vec![header.clone()])),
        ChainReply::Headers(Ok(vec![header])).clone()
    );
}
