//! Actions: the commands that are dispatched to the reducer, the identity
//! that each dispatch carries, and the responses that the reducer stores.

use crate::address::Address;
use crate::entry::{Entry, EntryView};
use crate::error::HolochainError;
use crate::get_links::{GetLinksArgs, GetLinksArgsView};
use vstd::prelude::*;

verus! {

/// What an action is, as plain text.
pub enum ActionView {
    Commit(EntryView),
    GetLinks(GetLinksArgsView),
}

/// A command for the reducer.
#[derive(Debug, PartialEq, Eq)]
pub enum Action {
    /// Push an entry onto the agent's chain.
    Commit(Entry),
    /// Fetch the addresses that an entry links to under a tag.
    GetLinks(GetLinksArgs),
}

impl View for Action {
    type V = ActionView;

    open spec fn view(&self) -> ActionView {
        match self {
            Action::Commit(entry) => ActionView::Commit(entry@),
            Action::GetLinks(args) => ActionView::GetLinks(args@),
        }
    }
}

impl Clone for Action {
    fn clone(&self) -> (copy: Action)
        ensures
            copy@ == self@,
    {
        match self {
            Action::Commit(entry) => Action::Commit(entry.clone()),
            Action::GetLinks(args) => Action::GetLinks(args.clone()),
        }
    }
}

/// What a dispatched action is, as plain text.
pub struct ActionWrapperView {
    pub action: ActionView,
    pub id: u64,
}

/// An action together with the identity of one dispatch of it. Two
/// dispatches of the same action carry different identities, so each can be
/// told from the other and answered on its own.
#[derive(Debug, PartialEq, Eq)]
pub struct ActionWrapper {
    action: Action,
    id: u64,
}

impl View for ActionWrapper {
    type V = ActionWrapperView;

    closed spec fn view(&self) -> ActionWrapperView {
        ActionWrapperView { action: self.action@, id: self.id }
    }
}

impl ActionWrapper {
    /// The dispatch of `action` under the identity `id`.
    pub fn new(action: Action, id: u64) -> (wrapper: ActionWrapper)
        ensures
            wrapper@ == (ActionWrapperView { action: action@, id }),
    {
        ActionWrapper { action, id }
    }

    /// The dispatched action.
    pub fn action(&self) -> (action: &Action)
        ensures
            action@ == self@.action,
    {
        &self.action
    }

    /// The identity of the dispatch.
    pub fn id(&self) -> (id: u64)
        ensures
            id == self@.id,
    {
        self.id
    }
}

impl Clone for ActionWrapper {
    fn clone(&self) -> (copy: ActionWrapper)
        ensures
            copy@ == self@,
    {
        ActionWrapper { action: self.action.clone(), id: self.id }
    }
}

/// The source of dispatch identities: it hands out 0, 1, 2 and so on, each
/// once.
#[derive(Debug)]
pub struct ActionIssuer {
    next: u64,
}

impl ActionIssuer {
    /// How many identities have been handed out.
    pub closed spec fn issued(&self) -> u64 {
        self.next
    }

    /// An issuer that has handed out nothing yet.
    pub fn new() -> (issuer: ActionIssuer)
        ensures
            issuer.issued() == 0,
    {
        ActionIssuer { next: 0 }
    }

    /// Wraps `action` with the next identity; nothing once every identity
    /// has been handed out.
    pub fn issue(&mut self, action: Action) -> (wrapper: Option<ActionWrapper>)
        ensures
            wrapper is Some <==> old(self).issued() < u64::MAX,
            wrapper matches Some(w) ==> w@ == (ActionWrapperView {
                action: action@,
                id: old(self).issued(),
            }) && final(self).issued() == old(self).issued() + 1,
            wrapper is None ==> final(self).issued() == old(self).issued(),
    {
        if self.next == u64::MAX {
            None
        } else {
            let id = self.next;
            self.next = id + 1;
            Some(ActionWrapper { action, id })
        }
    }
}

/// The views of a sequence of addresses.
pub open spec fn address_texts(addresses: Seq<Address>) -> Seq<Seq<char>> {
    addresses.map_values(|a: Address| a@)
}

/// What a response is, as plain text.
pub enum ActionResponseView {
    Commit(Result<Seq<char>, HolochainError>),
    GetLinks(Result<Seq<Seq<char>>, HolochainError>),
}

/// What the reducer answers to an action.
#[derive(Debug, PartialEq, Eq)]
pub enum ActionResponse {
    /// The address of the committed entry, or why the commit was refused.
    Commit(Result<Address, HolochainError>),
    /// The addresses linked to, or why they could not be fetched.
    GetLinks(Result<Vec<Address>, HolochainError>),
}

impl View for ActionResponse {
    type V = ActionResponseView;

    open spec fn view(&self) -> ActionResponseView {
        match self {
            ActionResponse::Commit(Ok(address)) => ActionResponseView::Commit(Ok(address@)),
            ActionResponse::Commit(Err(e)) => ActionResponseView::Commit(Err(*e)),
            ActionResponse::GetLinks(Ok(links)) => ActionResponseView::GetLinks(
                Ok(address_texts(links@)),
            ),
            ActionResponse::GetLinks(Err(e)) => ActionResponseView::GetLinks(Err(*e)),
        }
    }
}

/// A copy of a list of addresses.
pub fn clone_addresses(addresses: &Vec<Address>) -> (copy: Vec<Address>)
    ensures
        address_texts(copy@) == address_texts(addresses@),
{
    let mut copy: Vec<Address> = Vec::new();
    let mut i: usize = 0;
    while i < addresses.len()
        invariant
            i <= addresses.len(),
            copy.len() == i,
            forall|j: int| 0 <= j < i ==> copy[j]@ == addresses[j]@,
        decreases addresses.len() - i,
    {
        copy.push(addresses[i].clone());
        i += 1;
    }
    assert(address_texts(copy@) =~= address_texts(addresses@));
    copy
}

impl Clone for ActionResponse {
    fn clone(&self) -> (copy: ActionResponse)
        ensures
            copy@ == self@,
    {
        match self {
            ActionResponse::Commit(Ok(address)) => ActionResponse::Commit(Ok(address.clone())),
            ActionResponse::Commit(Err(e)) => ActionResponse::Commit(Err(*e)),
            ActionResponse::GetLinks(Ok(links)) => ActionResponse::GetLinks(
                Ok(clone_addresses(links)),
            ),
            ActionResponse::GetLinks(Err(e)) => ActionResponse::GetLinks(Err(*e)),
        }
    }
}

} // verus!
