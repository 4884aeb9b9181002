//! The chain actor: the one mutable cell of a source chain, its head
//! address; and the messages that handles exchange with the actor that owns
//! a whole chain.

use crate::address::Address;
use crate::chain::{header_views, optional_header};
use crate::entry::{Entry, EntryHeader};
use crate::error::HolochainError;
use crate::header::{clone_optional, optional_text, ChainHeader};
use vstd::prelude::*;

verus! {

/// The owner of a chain's head address. It holds nothing else.
#[derive(Debug)]
pub struct ChainActor {
    head: Option<Address>,
}

impl View for ChainActor {
    type V = Option<Seq<char>>;

    closed spec fn view(&self) -> Option<Seq<char>> {
        optional_text(self.head)
    }
}

impl ChainActor {
    /// The actor of an empty chain: it has no head.
    pub fn new() -> (actor: ChainActor)
        ensures
            actor@ is None,
    {
        ChainActor { head: None }
    }

    /// The current head address, or none for an empty chain.
    pub fn get_head(&self) -> (head: Option<Address>)
        ensures
            optional_text(head) == self@,
    {
        clone_optional(&self.head)
    }

    /// Makes `head` the head address and returns the one it replaces.
    pub fn set_head(&mut self, head: Option<Address>) -> (previous: Option<Address>)
        ensures
            final(self)@ == optional_text(head),
            optional_text(previous) == old(self)@,
    {
        let previous = clone_optional(&self.head);
        self.head = head;
        previous
    }
}

/// What a handle asks of the actor that owns a source chain. Each request
/// is one message, so a push reads the head and moves it in one step and no
/// other push can come between.
#[derive(Clone, Debug, PartialEq, Eq)]
pub enum ChainRequest {
    /// Read the newest header.
    TopChainHeader,
    /// Read the newest header of an entry type.
    TopChainHeaderOfType(String),
    /// Draft the header that the next push of the announced entry gives.
    CreateNextChainHeader(EntryHeader),
    /// Push an entry, announced by its draft.
    PushEntry(EntryHeader, Entry),
    /// Look an entry up by its address.
    GetEntry(Address),
    /// Walk the chain and hand out every header, the newest first.
    Headers,
    /// Export the whole chain as JSON text.
    Export,
}

/// What the actor answers, one kind of reply for each kind of request.
#[derive(Debug, PartialEq, Eq)]
pub enum ChainReply {
    TopChainHeader(Result<Option<ChainHeader>, HolochainError>),
    TopChainHeaderOfType(Result<Option<ChainHeader>, HolochainError>),
    CreateNextChainHeader(Result<ChainHeader, HolochainError>),
    PushEntry(Result<ChainHeader, HolochainError>),
    GetEntry(Option<Entry>),
    Headers(Result<Vec<ChainHeader>, HolochainError>),
    Export(Result<String, HolochainError>),
}

/// A copy of an optional header.
pub fn clone_optional_header(header: &Option<ChainHeader>) -> (copy: Option<ChainHeader>)
    ensures
        copy == *header,
{
    match header {
        Some(h) => Some(h.clone()),
        None => None,
    }
}

/// A copy of a list of headers.
pub fn clone_headers(headers: &Vec<ChainHeader>) -> (copy: Vec<ChainHeader>)
    ensures
        copy@ == headers@,
{
    let mut copy: Vec<ChainHeader> = Vec::new();
    let mut i: usize = 0;
    while i < headers.len()
        invariant
            i <= headers.len(),
            copy@ == headers@.take(i as int),
        decreases headers.len() - i,
    {
        copy.push(headers[i].clone());
        assert(copy@ =~= headers@.take(i + 1));
        i += 1;
    }
    assert(headers@.take(i as int) =~= headers@);
    copy
}

/// What a reply carries, as plain text.
pub enum ChainReplyView {
    TopChainHeader(Result<Option<crate::header::HeaderView>, HolochainError>),
    TopChainHeaderOfType(Result<Option<crate::header::HeaderView>, HolochainError>),
    CreateNextChainHeader(Result<crate::header::HeaderView, HolochainError>),
    PushEntry(Result<crate::header::HeaderView, HolochainError>),
    GetEntry(Option<crate::entry::EntryView>),
    Headers(Result<Seq<crate::header::HeaderView>, HolochainError>),
    Export(Result<Seq<char>, HolochainError>),
}

impl View for ChainReply {
    type V = ChainReplyView;

    open spec fn view(&self) -> ChainReplyView {
        match self {
            ChainReply::TopChainHeader(Ok(top)) => ChainReplyView::TopChainHeader(
                Ok(optional_header(*top)),
            ),
            ChainReply::TopChainHeader(Err(e)) => ChainReplyView::TopChainHeader(Err(*e)),
            ChainReply::TopChainHeaderOfType(Ok(top)) => ChainReplyView::TopChainHeaderOfType(
                Ok(optional_header(*top)),
            ),
            ChainReply::TopChainHeaderOfType(Err(e)) => ChainReplyView::TopChainHeaderOfType(
                Err(*e),
            ),
            ChainReply::CreateNextChainHeader(Ok(header)) => ChainReplyView::CreateNextChainHeader(
                Ok(header@),
            ),
            ChainReply::CreateNextChainHeader(Err(e)) => ChainReplyView::CreateNextChainHeader(
                Err(*e),
            ),
            ChainReply::PushEntry(Ok(header)) => ChainReplyView::PushEntry(Ok(header@)),
            ChainReply::PushEntry(Err(e)) => ChainReplyView::PushEntry(Err(*e)),
            ChainReply::GetEntry(Some(entry)) => ChainReplyView::GetEntry(Some(entry@)),
            ChainReply::GetEntry(None) => ChainReplyView::GetEntry(None),
            ChainReply::Headers(Ok(headers)) => ChainReplyView::Headers(
                Ok(header_views(headers@)),
            ),
            ChainReply::Headers(Err(e)) => ChainReplyView::Headers(Err(*e)),
            ChainReply::Export(Ok(text)) => ChainReplyView::Export(Ok(text@)),
            ChainReply::Export(Err(e)) => ChainReplyView::Export(Err(*e)),
        }
    }
}

impl Clone for ChainReply {
    fn clone(&self) -> (copy: ChainReply)
        ensures
            copy@ == self@,
    {
        match self {
            ChainReply::TopChainHeader(Ok(top)) => ChainReply::TopChainHeader(
                Ok(clone_optional_header(top)),
            ),
            ChainReply::TopChainHeader(Err(e)) => ChainReply::TopChainHeader(Err(*e)),
            ChainReply::TopChainHeaderOfType(Ok(top)) => ChainReply::TopChainHeaderOfType(
                Ok(clone_optional_header(top)),
            ),
            ChainReply::TopChainHeaderOfType(Err(e)) => ChainReply::TopChainHeaderOfType(Err(*e)),
            ChainReply::CreateNextChainHeader(Ok(header)) => ChainReply::CreateNextChainHeader(
                Ok(header.clone()),
            ),
            ChainReply::CreateNextChainHeader(Err(e)) => ChainReply::CreateNextChainHeader(
                Err(*e),
            ),
            ChainReply::PushEntry(Ok(header)) => ChainReply::PushEntry(Ok(header.clone())),
            ChainReply::PushEntry(Err(e)) => ChainReply::PushEntry(Err(*e)),
            ChainReply::GetEntry(Some(entry)) => ChainReply::GetEntry(Some(entry.clone())),
            ChainReply::GetEntry(None) => ChainReply::GetEntry(None),
            ChainReply::Headers(Ok(headers)) => ChainReply::Headers(Ok(clone_headers(headers))),
            ChainReply::Headers(Err(e)) => ChainReply::Headers(Err(*e)),
            ChainReply::Export(Ok(text)) => ChainReply::Export(Ok(text.clone())),
            ChainReply::Export(Err(e)) => ChainReply::Export(Err(*e)),
        }
    }
}

impl ChainReply {
    /// What a handle makes of the answer to `ChainRequest::TopChainHeader`:
    /// the result that the reply carries; the store counts as unavailable
    /// where no reply came or one of another kind.
    pub fn into_top_chain_header(reply: Option<ChainReply>) -> (top: Result<
        Option<ChainHeader>,
        HolochainError,
    >)
        ensures
            reply matches Some(ChainReply::TopChainHeader(carried)) ==> top == carried,
            !(reply matches Some(ChainReply::TopChainHeader(_))) ==> top == Err::<
                Option<ChainHeader>,
                HolochainError,
            >(HolochainError::StoreUnavailable),
    {
        match reply {
            Some(ChainReply::TopChainHeader(carried)) => carried,
            _ => Err(HolochainError::StoreUnavailable),
        }
    }

    /// What a handle makes of the answer to
    /// `ChainRequest::TopChainHeaderOfType`.
    pub fn into_top_chain_header_of_type(reply: Option<ChainReply>) -> (top: Result<
        Option<ChainHeader>,
        HolochainError,
    >)
        ensures
            reply matches Some(ChainReply::TopChainHeaderOfType(carried)) ==> top == carried,
            !(reply matches Some(ChainReply::TopChainHeaderOfType(_))) ==> top == Err::<
                Option<ChainHeader>,
                HolochainError,
            >(HolochainError::StoreUnavailable),
    {
        match reply {
            Some(ChainReply::TopChainHeaderOfType(carried)) => carried,
            _ => Err(HolochainError::StoreUnavailable),
        }
    }

    /// What a handle makes of the answer to
    /// `ChainRequest::CreateNextChainHeader`.
    pub fn into_next_chain_header(reply: Option<ChainReply>) -> (header: Result<
        ChainHeader,
        HolochainError,
    >)
        ensures
            reply matches Some(ChainReply::CreateNextChainHeader(carried)) ==> header == carried,
            !(reply matches Some(ChainReply::CreateNextChainHeader(_))) ==> header == Err::<
                ChainHeader,
                HolochainError,
            >(HolochainError::StoreUnavailable),
    {
        match reply {
            Some(ChainReply::CreateNextChainHeader(carried)) => carried,
            _ => Err(HolochainError::StoreUnavailable),
        }
    }

    /// What a handle makes of the answer to `ChainRequest::PushEntry`.
    pub fn into_pushed(reply: Option<ChainReply>) -> (pushed: Result<ChainHeader, HolochainError>)
        ensures
            reply matches Some(ChainReply::PushEntry(carried)) ==> pushed == carried,
            !(reply matches Some(ChainReply::PushEntry(_))) ==> pushed == Err::<
                ChainHeader,
                HolochainError,
            >(HolochainError::StoreUnavailable),
    {
        match reply {
            Some(ChainReply::PushEntry(carried)) => carried,
            _ => Err(HolochainError::StoreUnavailable),
        }
    }

    /// What a handle makes of the answer to `ChainRequest::GetEntry`.
    pub fn into_entry(reply: Option<ChainReply>) -> (entry: Result<Option<Entry>, HolochainError>)
        ensures
            reply matches Some(ChainReply::GetEntry(carried)) ==> entry == Ok::<
                Option<Entry>,
                HolochainError,
            >(carried),
            !(reply matches Some(ChainReply::GetEntry(_))) ==> entry == Err::<
                Option<Entry>,
                HolochainError,
            >(HolochainError::StoreUnavailable),
    {
        match reply {
            Some(ChainReply::GetEntry(carried)) => Ok(carried),
            _ => Err(HolochainError::StoreUnavailable),
        }
    }

    /// What a handle makes of the answer to `ChainRequest::Headers`.
    pub fn into_headers(reply: Option<ChainReply>) -> (headers: Result<
        Vec<ChainHeader>,
        HolochainError,
    >)
        ensures
            reply matches Some(ChainReply::Headers(carried)) ==> headers == carried,
            !(reply matches Some(ChainReply::Headers(_))) ==> headers == Err::<
                Vec<ChainHeader>,
                HolochainError,
            >(HolochainError::StoreUnavailable),
    {
        match reply {
            Some(ChainReply::Headers(carried)) => carried,
            _ => Err(HolochainError::StoreUnavailable),
        }
    }

    /// What a handle makes of the answer to `ChainRequest::Export`.
    pub fn into_export(reply: Option<ChainReply>) -> (text: Result<String, HolochainError>)
        ensures
            reply matches Some(ChainReply::Export(carried)) ==> text == carried,
            !(reply matches Some(ChainReply::Export(_))) ==> text == Err::<
                String,
                HolochainError,
            >(HolochainError::StoreUnavailable),
    {
        match reply {
            Some(ChainReply::Export(carried)) => carried,
            _ => Err(HolochainError::StoreUnavailable),
        }
    }
}

} // verus!
