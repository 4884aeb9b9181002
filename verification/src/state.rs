//! The process state that the reducer owns: the agent's chain, the links
//! between entries, and the responses that wait to be fetched.

use crate::action::{
    address_texts, clone_addresses, Action, ActionResponse, ActionResponseView, ActionView,
    ActionWrapper, ActionWrapperView,
};
use crate::address::Address;
use crate::chain::model::{draft_of, ChainModel};
use crate::entry::EntryView;
use crate::chain::{Chain, SourceChain};
use crate::error::HolochainError;
use crate::get_links::GetLinksArgs;
use vstd::hash_map::{HashMapWithView, StringHashMap};
use vstd::prelude::*;

verus! {

broadcast use vstd::std_specs::hash::group_hash_axioms;

/// The addresses kept under the attribute `name`; none where the attribute
/// is unknown.
pub open spec fn links_under(links: Map<Seq<char>, Seq<Seq<char>>>, name: Seq<char>) -> Seq<
    Seq<char>,
> {
    if links.contains_key(name) {
        links[name]
    } else {
        Seq::empty()
    }
}

/// What the state is, as plain values.
pub struct StateView {
    pub chain: ChainModel,
    /// Whether the chain is known to be unbroken: only then can the reducer
    /// walk it.
    pub chain_unbroken: bool,
    pub links: Map<Seq<char>, Seq<Seq<char>>>,
    pub responses: Map<u64, ActionResponseView>,
}

impl StateView {
    /// Whether a commit of `entry` goes through: the chain is known to be
    /// unbroken and accepts the push.
    pub open spec fn commits(self, entry: EntryView) -> bool {
        self.chain_unbroken && self.chain.accepts(draft_of(entry), entry)
    }

    /// What the reducer answers to `action` in this state.
    pub open spec fn response_to(self, action: ActionView) -> ActionResponseView {
        match action {
            ActionView::Commit(entry) => if self.commits(entry) {
                ActionResponseView::Commit(Ok(entry.address()))
            } else {
                ActionResponseView::Commit(Err(HolochainError::ChainConsistencyError))
            },
            ActionView::GetLinks(args) => ActionResponseView::GetLinks(
                Ok(links_under(self.links, args.attribute_name())),
            ),
        }
    }

    /// The chain after `action`: a commit that goes through pushes its
    /// entry, anything else leaves the chain as it is.
    pub open spec fn chain_after(self, action: ActionView) -> ChainModel {
        match action {
            ActionView::Commit(entry) => if self.commits(entry) {
                self.chain.push(draft_of(entry), entry)
            } else {
                self.chain
            },
            ActionView::GetLinks(args) => self.chain,
        }
    }

    /// The state after the reducer has taken the dispatch `wrapper`: the
    /// action is applied and its response stored under the dispatch's
    /// identity.
    pub open spec fn reduced(self, wrapper: ActionWrapperView) -> StateView {
        StateView {
            chain: self.chain_after(wrapper.action),
            chain_unbroken: self.chain_unbroken,
            links: self.links,
            responses: self.responses.insert(wrapper.id, self.response_to(wrapper.action)),
        }
    }

    /// The state after `target` has been added to the links under `name`.
    pub open spec fn linked(self, name: Seq<char>, target: Seq<char>) -> StateView {
        StateView {
            chain: self.chain,
            chain_unbroken: self.chain_unbroken,
            links: self.links.insert(name, links_under(self.links, name).push(target)),
            responses: self.responses,
        }
    }
}

/// The process state. Only the reducer changes it.
pub struct State {
    chain: Chain,
    links: StringHashMap<Vec<Address>>,
    responses: HashMapWithView<u64, ActionResponse>,
}

impl View for State {
    type V = StateView;

    closed spec fn view(&self) -> StateView {
        StateView {
            chain: self.chain@,
            chain_unbroken: self.chain.known_unbroken(),
            links: Map::new(
                |name: Seq<char>| self.links@.contains_key(name),
                |name: Seq<char>| address_texts(self.links@[name]@),
            ),
            responses: Map::new(
                |id: u64| self.responses@.contains_key(id),
                |id: u64| self.responses@[id]@,
            ),
        }
    }
}

impl State {
    /// The state around `chain`, with no links and no responses.
    pub fn new(chain: Chain) -> (state: State)
        ensures
            state@ == (StateView {
                chain: chain@,
                chain_unbroken: chain.known_unbroken(),
                links: Map::empty(),
                responses: Map::empty(),
            }),
    {
        let state = State { chain, links: StringHashMap::new(), responses: HashMapWithView::new() };
        assert(state@.links =~= Map::empty());
        assert(state@.responses =~= Map::empty());
        state
    }

    /// The agent's chain.
    pub fn chain(&self) -> (chain: &Chain)
        ensures
            chain@ == self@.chain,
            chain.known_unbroken() == self@.chain_unbroken,
    {
        &self.chain
    }

    /// The addresses that the entry of `args` links to under the tag of
    /// `args`, in the order in which they were added.
    pub fn links(&self, args: &GetLinksArgs) -> (links: Vec<Address>)
        ensures
            address_texts(links@) == links_under(self@.links, args@.attribute_name()),
    {
        let name = args.to_attribute_name();
        match self.links.get(name.as_str()) {
            Some(links) => clone_addresses(links),
            None => {
                let none: Vec<Address> = Vec::new();
                assert(address_texts(none@) =~= Seq::<Seq<char>>::empty());
                none
            },
        }
    }

    /// Adds `target` to the addresses that the entry of `args` links to
    /// under the tag of `args`.
    pub fn add_link(&mut self, args: &GetLinksArgs, target: &Address)
        ensures
            final(self)@ == old(self)@.linked(args@.attribute_name(), target@),
    {
        let mut links = self.links(args);
        links.push(target.clone());
        assert(address_texts(links@) =~= links_under(old(self)@.links, args@.attribute_name()).push(
            target@,
        ));
        self.links.insert(args.to_attribute_name(), links);
        assert(self@.links =~= old(self)@.linked(args@.attribute_name(), target@).links);
    }

    /// The response stored under `id`, if there is one. It stays stored.
    pub fn response(&self, id: u64) -> (response: Option<&ActionResponse>)
        ensures
            response is Some <==> self@.responses.contains_key(id),
            response matches Some(r) ==> r@ == self@.responses[id],
    {
        self.responses.get(&id)
    }

    /// Takes the response stored under `id` out of the state, if there is
    /// one: nobody can fetch it a second time.
    pub fn take_response(&mut self, id: u64) -> (response: Option<ActionResponse>)
        ensures
            response is Some <==> old(self)@.responses.contains_key(id),
            response matches Some(r) ==> r@ == old(self)@.responses[id],
            final(self)@ == (StateView {
                responses: old(self)@.responses.remove(id),
                ..old(self)@
            }),
    {
        let response = self.responses.remove(&id);
        assert(self@.responses =~= old(self)@.responses.remove(id));
        response
    }

    /// Takes the dispatch `wrapper`: applies its action and stores the
    /// response under the dispatch's identity. A commit is refused with a
    /// consistency error where the chain is not known to be unbroken or
    /// does not accept the push.
    pub fn reduce(&mut self, wrapper: &ActionWrapper)
        ensures
            final(self)@ == old(self)@.reduced(wrapper@),
    {
        let response = match wrapper.action() {
            Action::Commit(entry) => {
                if self.chain.validate() {
                    match self.chain.push_entry(&entry.header(), entry) {
                        Ok(_) => ActionResponse::Commit(Ok(entry.address())),
                        Err(e) => ActionResponse::Commit(Err(e)),
                    }
                } else {
                    ActionResponse::Commit(Err(HolochainError::ChainConsistencyError))
                }
            },
            Action::GetLinks(args) => ActionResponse::GetLinks(Ok(self.links(args))),
        };
        self.responses.insert(wrapper.id(), response);
        assert(self@.responses =~= old(self)@.reduced(wrapper@).responses);
    }
}

} // verus!
