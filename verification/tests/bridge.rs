use holochain_core::action::{Action, ActionIssuer, ActionResponse, ActionWrapper};
use holochain_core::address::Address;
use holochain_core::cas::ContentStore;
use holochain_core::chain::{Chain, SourceChain};
use holochain_core::entry::Entry;
use holochain_core::error::HolochainError;
use holochain_core::get_links::GetLinksArgs;
use holochain_core::instance::{Delivery, Instance, Observer};
use holochain_core::state::State;

fn fresh_state() -> State {
    State::new(Chain::new(ContentStore::new()))
}

fn fresh() -> Instance {
    Instance::new(fresh_state())
}

fn args(tag: &str) -> GetLinksArgs {
    GetLinksArgs {
        entry_hash: Address::encode_from_str("test entry content"),
        tag: tag.to_string(),
    }
}

fn get_links(id: u64, tag: &str) -> ActionWrapper {
    ActionWrapper::new(Action::GetLinks(args(tag)), id)
}

fn commit(id: u64, content: &str) -> ActionWrapper {
    ActionWrapper::new(Action::Commit(Entry::new("testEntryType", content)), id)
}

#[test]
fn issuer_hands_out_each_identity_once() {
    let mut issuer = ActionIssuer::new();
    let first = issuer
        .issue(Action::GetLinks(args("toto")))
        .expect("identities are left");
    let second = issuer
        .issue(Action::GetLinks(args("toto")))
        .expect("identities are left");
    assert_eq!(0, first.id());
    assert_eq!(1, second.id());
    assert_eq!(first.action(), second.action());
    assert_ne!(first, second);
    assert_eq!(&Action::GetLinks(args("toto")), first.action());
    assert_eq!(first, first.clone());
}

#[test]
fn wrapper_keeps_action_and_identity() {
    let wrapper = commit(17, "c");
    assert_eq!(17, wrapper.id());
    assert_eq!(
        &Action::Commit(Entry::new("testEntryType", "c")),
        wrapper.action()
    );
}

#[test]
fn state_starts_without_links_and_responses() {
    let state = fresh_state();
    assert_eq!(Vec::<Address>::new(), state.links(&args("toto")));
    assert_eq!(None, state.response(0));
    assert_eq!(Ok(None), state.chain().top_chain_header());
}

#[test]
fn links_are_kept_per_entry_and_tag_in_order() {
    let mut state = fresh_state();
    state.add_link(&args("toto"), &Address::from_text("first"));
    state.add_link(&args("other"), &Address::from_text("elsewhere"));
    state.add_link(&args("toto"), &Address::from_text("second"));
    assert_eq!(
        vec![Address::from_text("first"), Address::from_text("second")],
        state.links(&args("toto"))
    );
    assert_eq!(
        vec![Address::from_text("elsewhere")],
        state.links(&args("other"))
    );
    assert_eq!(Vec::<Address>::new(), state.links(&args("none")));
}

#[test]
fn reducing_stores_the_response_under_the_identity() {
    let mut state = fresh_state();
    state.add_link(&args("toto"), &Address::from_text("target"));
    state.reduce(&get_links(5, "toto"));
    assert_eq!(
        Some(&ActionResponse::GetLinks(Ok(vec![Address::from_text(
            "target"
        )]))),
        state.response(5)
    );
    assert_eq!(None, state.response(4));

    state.reduce(&commit(6, "test entry content"));
    assert_eq!(
        Some(&ActionResponse::Commit(Ok(Address::encode_from_str(
            "test entry content"
        )))),
        state.response(6)
    );
    let top = state
        .chain()
        .top_chain_header()
        .expect("the chain should be consistent")
        .expect("the commit should have pushed");
    assert_eq!(Address::encode_from_str("test entry content"), top.entry_address());

    state.reduce(&ActionWrapper::new(
        Action::Commit(Entry::new("testEntryTypeB", "test entry content")),
        7,
    ));
    assert_eq!(
        Some(&ActionResponse::Commit(Err(
            HolochainError::ChainConsistencyError
        ))),
        state.response(7)
    );
    assert_eq!(Ok(Some(top)), state.chain().top_chain_header());
}

#[test]
fn a_response_is_taken_once() {
    let mut state = fresh_state();
    state.reduce(&get_links(5, "toto"));
    assert_eq!(
        Some(ActionResponse::GetLinks(Ok(vec![]))),
        state.take_response(5)
    );
    assert_eq!(None, state.take_response(5));
    assert_eq!(None, state.response(5));
}

#[test]
fn dispatch_with_observer_delivers_the_own_response() {
    let mut instance = fresh();
    let deliveries = instance.dispatch_action_with_observer(&get_links(3, "toto"));
    assert_eq!(
        vec![Delivery {
            id: 3,
            response: ActionResponse::GetLinks(Ok(vec![])),
        }],
        deliveries
    );
    assert_eq!(0, instance.waiting());
    assert!(!instance.is_waiting(3));
    assert_eq!(None, instance.state().response(3));
}

#[test]
fn a_second_dispatch_does_not_wake_the_first_waiter() {
    let mut instance = fresh();
    instance.register(Observer { id: 1 });
    assert!(instance.is_waiting(1));

    let deliveries = instance.dispatch_action_with_observer(&get_links(2, "toto"));
    assert_eq!(
        vec![Delivery {
            id: 2,
            response: ActionResponse::GetLinks(Ok(vec![])),
        }],
        deliveries
    );
    assert!(instance.is_waiting(1));
    assert_eq!(1, instance.waiting());

    let deliveries = instance.reduce(&commit(1, "test entry content"));
    assert_eq!(
        vec![Delivery {
            id: 1,
            response: ActionResponse::Commit(Ok(Address::encode_from_str(
                "test entry content"
            ))),
        }],
        deliveries
    );
    assert!(!instance.is_waiting(1));
    assert_eq!(0, instance.waiting());
}

#[test]
fn a_response_without_observer_waits_in_the_state() {
    let mut instance = fresh();
    assert_eq!(Vec::<Delivery>::new(), instance.reduce(&get_links(9, "toto")));
    assert_eq!(
        Some(&ActionResponse::GetLinks(Ok(vec![]))),
        instance.state().response(9)
    );
    instance.register(Observer { id: 9 });
    let deliveries = instance.reduce(&get_links(10, "toto"));
    assert_eq!(
        vec![Delivery {
            id: 9,
            response: ActionResponse::GetLinks(Ok(vec![])),
        }],
        deliveries
    );
    assert_eq!(None, instance.state().response(9));
    assert!(instance.state().response(10).is_some());
}

#[test]
fn observers_are_asked_in_the_order_of_registration() {
    let mut instance = fresh();
    instance.reduce(&get_links(1, "a"));
    instance.reduce(&get_links(2, "b"));
    instance.register(Observer { id: 2 });
    instance.register(Observer { id: 7 });
    instance.register(Observer { id: 1 });
    instance.register(Observer { id: 2 });
    let deliveries = instance.reduce(&get_links(3, "c"));
    assert_eq!(
        vec![2, 1],
        deliveries.iter().map(|d| d.id).collect::<Vec<u64>>()
    );
    assert_eq!(2, instance.waiting());
    assert!(instance.is_waiting(7));
    assert!(instance.is_waiting(2));
    assert!(!instance.is_waiting(1));
    assert_eq!(
        Some(&deliveries[0].response),
        Instance::find_response(&deliveries, 2)
    );
    assert_eq!(None, Instance::find_response(&deliveries, 7));
}

#[test]
fn a_waiter_gets_its_response_or_a_timeout() {
    let mut instance = fresh();
    instance.register(Observer { id: 4 });
    assert_eq!(Err(HolochainError::DispatchTimeout), instance.expire(4));
    assert!(!instance.is_waiting(4));
    assert_eq!(Ok(()), instance.expire(4));

    assert_eq!(Vec::<Delivery>::new(), instance.reduce(&get_links(4, "toto")));
    assert!(instance.state().response(4).is_some());

    let deliveries = instance.dispatch_action_with_observer(&get_links(5, "toto"));
    assert_eq!(1, deliveries.len());
    assert_eq!(Ok(()), instance.expire(5));
}

#[test]
fn expiry_withdraws_the_first_of_two_observers() {
    let mut instance = fresh();
    instance.register(Observer { id: 4 });
    instance.register(Observer { id: 5 });
    instance.register(Observer { id: 4 });
    assert_eq!(Err(HolochainError::DispatchTimeout), instance.expire(4));
    assert_eq!(2, instance.waiting());
    assert!(instance.is_waiting(4));
    assert_eq!(Err(HolochainError::DispatchTimeout), instance.expire(4));
    assert!(!instance.is_waiting(4));
    assert!(instance.is_waiting(5));
}

#[test]
fn a_commit_is_refused_where_the_head_was_set_by_hand() {
    let mut chain = Chain::new(ContentStore::new());
    let stranger = holochain_core::header::ChainHeader::new(
        "x",
        "",
        None,
        &Address::from_text("y"),
        "",
        None,
    );
    assert_eq!(Ok(None), chain.set_top_chain_header(&Some(stranger.clone())));
    let mut state = State::new(chain);
    state.reduce(&commit(1, "test entry content"));
    assert_eq!(
        Some(&ActionResponse::Commit(Err(
            HolochainError::ChainConsistencyError
        ))),
        state.response(1)
    );
    assert_eq!(Ok(Some(stranger)), state.chain().top_chain_header());
    assert_eq!(0, state.chain().table().len());
    state.reduce(&get_links(2, "toto"));
    assert_eq!(
        Some(&ActionResponse::GetLinks(Ok(vec![]))),
        state.response(2)
    );
}
