//! The source chain: an agent's hash-linked sequence of headers.

pub mod actor;
pub mod export;
pub mod laws;
pub mod model;

use crate::address::Address;
use crate::cas::{Content, ContentStore, ContentView};
use crate::chain::actor::{ChainActor, ChainReply, ChainReplyView, ChainRequest};
use crate::chain::export::{optional_entry, records_json};
use crate::chain::model::{
    latest_of_type, lemma_headers, lemma_headers_linked, lemma_headers_walkable, lemma_push,
    lemma_walkable_take, lemma_walkable_unique, linked, optional_address, step, walkable,
    ChainModel,
};
use crate::entry::{Entry, EntryHeader};
use crate::error::HolochainError;
use crate::header::{ChainHeader, HeaderView};
use vstd::prelude::*;

verus! {

/// The view of an optional header.
pub open spec fn optional_header(header: Option<ChainHeader>) -> Option<HeaderView> {
    match header {
        Some(h) => Some(h@),
        None => None,
    }
}

/// The views of a sequence of headers.
pub open spec fn header_views(headers: Seq<ChainHeader>) -> Seq<HeaderView> {
    headers.map_values(|h: ChainHeader| h@)
}

/// A walk over headers, from a starting header back, link by link, to a
/// header without link.
pub struct ChainIterator<'a> {
    table_actor: &'a ContentStore,
    current: Option<ChainHeader>,
}

impl<'a> ChainIterator<'a> {
    /// The contents of the store that the walk reads.
    pub closed spec fn store(&self) -> Map<Seq<char>, ContentView> {
        self.table_actor@
    }

    /// The header that the next step hands out, if the walk is not over.
    pub closed spec fn current(&self) -> Option<HeaderView> {
        optional_header(self.current)
    }

    /// From the current header a path leads back through the store to a
    /// header without link, at all times: no step of the walk can fail.
    #[verifier::type_invariant]
    pub open spec fn leads_back(&self) -> bool {
        exists|headers: Seq<HeaderView>| walkable(self.store(), self.current(), headers)
    }

    /// The headers still to come, oldest first: the walk hands them out
    /// from the last one down.
    pub open spec fn rest(&self) -> Seq<HeaderView> {
        choose|headers: Seq<HeaderView>| walkable(self.store(), self.current(), headers)
    }

    /// Any path from the current header is what is still to come.
    pub proof fn lemma_rest(&self, headers: Seq<HeaderView>)
        requires
            walkable(self.store(), self.current(), headers),
        ensures
            self.rest() == headers,
    {
        lemma_walkable_unique(self.store(), self.current(), self.rest(), headers);
    }

    /// A walk through `table_actor` that starts at `chain_header`. The
    /// start need not be stored itself; what the walk needs is that every
    /// link on the way names a header that is.
    pub fn new(table_actor: &'a ContentStore, chain_header: &Option<ChainHeader>) -> (walk:
        ChainIterator<'a>)
        requires
            exists|headers: Seq<HeaderView>|
                walkable(table_actor@, optional_header(*chain_header), headers),
        ensures
            walk.store() == table_actor@,
            walk.current() == optional_header(*chain_header),
            walkable(walk.store(), walk.current(), walk.rest()),
            forall|headers: Seq<HeaderView>| #[trigger]
                walkable(table_actor@, optional_header(*chain_header), headers) ==> walk.rest()
                    == headers,
    {
        let current = match chain_header {
            Some(h) => Some(h.clone()),
            None => None,
        };
        proof {
            let headers = choose|headers: Seq<HeaderView>|
                walkable(table_actor@, optional_header(*chain_header), headers);
            let walk = ChainIterator { table_actor, current };
            assert(walkable(walk.store(), walk.current(), headers));
            assert forall|other: Seq<HeaderView>| #[trigger]
                walkable(table_actor@, optional_header(*chain_header), other) implies walk.rest()
                == other by {
                walk.lemma_rest(other);
            }
        }
        ChainIterator { table_actor, current }
    }

    /// Hands out the current header and steps to the one it links to; hands
    /// out nothing once the walk is over.
    pub fn next(&mut self) -> (header: Option<ChainHeader>)
        ensures
            final(self).store() == old(self).store(),
            optional_header(header) == old(self).current(),
            old(self).rest().len() == 0 ==> header is None && final(self).rest().len() == 0,
            old(self).rest().len() > 0 ==> header is Some && header->Some_0@
                == old(self).rest().last() && final(self).rest() == old(self).rest().drop_last(),
    {
        proof {
            use_type_invariant(&*self);
        }
        let ghost headers = self.rest();
        let previous = match &self.current {
            Some(h) => Some(h.clone()),
            None => None,
        };
        match &previous {
            None => {},
            Some(h) => {
                let ghost n = headers.len() - 1;
                proof {
                    assert(step(self.store(), headers, n));
                    lemma_walkable_take(self.store(), self.current(), headers, n);
                    assert(headers.take(n) =~= headers.drop_last());
                    if n > 0 {
                        assert(headers.take(n).last() == headers[n - 1]);
                    }
                }
                let next = match h.link() {
                    None => None,
                    Some(address) => match self.table_actor.get(&address) {
                        Some(Content::Header(linked_header)) => Some(linked_header.clone()),
                        _ => {
                            proof {
                                assert(false);
                            }
                            None
                        },
                    },
                };
                proof {
                    let after = ChainIterator { table_actor: self.table_actor, current: next };
                    assert(walkable(after.store(), after.current(), headers.drop_last()));
                }
                self.current = next;
                proof {
                    self.lemma_rest(headers.drop_last());
                }
            },
        }
        previous
    }

    /// Walks to the end and returns every header on the way, the newest
    /// first.
    pub fn collect(self) -> (headers: Vec<ChainHeader>)
        ensures
            header_views(headers@) == self.rest().reverse(),
            headers.len() == self.rest().len(),
    {
        let ghost all = self.rest();
        let mut walk = self;
        let mut headers: Vec<ChainHeader> = Vec::new();
        loop
            invariant
                headers.len() + walk.rest().len() == all.len(),
                walk.rest() == all.take(walk.rest().len() as int),
                forall|j: int|
                    0 <= j < headers.len() ==> (#[trigger] headers[j])@ == all[all.len() - 1 - j],
            ensures
                headers.len() == all.len(),
                forall|j: int|
                    0 <= j < headers.len() ==> (#[trigger] headers[j])@ == all[all.len() - 1 - j],
            decreases walk.rest().len(),
        {
            let ghost before = walk.rest();
            match walk.next() {
                None => {
                    break ;
                },
                Some(h) => {
                    proof {
                        assert(before.drop_last() =~= all.take(before.len() - 1));
                    }
                    headers.push(h);
                },
            }
        }
        assert(header_views(headers@) =~= all.reverse());
        headers
    }
}

/// The operations of a source chain on its head and its headers.
pub trait SourceChain {
    /// The chain as a store and a head.
    spec fn model(&self) -> ChainModel;

    /// Makes `chain_header` the head, whatever it is, and returns the head
    /// that it replaces. The store is not touched.
    fn set_top_chain_header(&mut self, chain_header: &Option<ChainHeader>) -> (previous: Result<
        Option<ChainHeader>,
        HolochainError,
    >)
        ensures
            previous is Ok,
            optional_header(previous->Ok_0) == old(self).model().head,
            final(self).model().head == optional_header(*chain_header),
            final(self).model().store == old(self).model().store,
    ;

    /// The head: the newest header, or nothing for an empty chain.
    fn top_chain_header(&self) -> (top: Result<Option<ChainHeader>, HolochainError>)
        ensures
            top is Ok,
            optional_header(top->Ok_0) == self.model().head,
    ;

    /// The most recently pushed header whose entry type is `entry_type`, or
    /// nothing if no header has that type. The chain must be one that can
    /// be walked: a link that names no stored header is fatal.
    fn top_chain_header_of_type(&self, entry_type: &str) -> (top: Option<ChainHeader>)
        requires
            self.model().walkable(),
        ensures
            optional_header(top) == self.model().top_of_type(entry_type@),
    ;

    /// Pushes `entry`, announced by `entry_header`, on top of the chain:
    /// stores the entry and the next header and makes that header the
    /// head; the header is returned. The push is refused, and nothing
    /// changes, where the draft does not describe the entry or where the
    /// entry or the header would replace a different content in the store.
    /// The chain must be one that can be walked.
    fn push_entry(&mut self, entry_header: &EntryHeader, entry: &Entry) -> (pushed: Result<
        ChainHeader,
        HolochainError,
    >)
        requires
            old(self).model().walkable(),
        ensures
            pushed is Ok <==> old(self).model().accepts(entry_header@, entry@),
            pushed is Ok ==> pushed->Ok_0@ == old(self).model().draft(entry_header@)
                && final(self).model() == old(self).model().push(entry_header@, entry@)
                && final(self).model().head == Some(pushed->Ok_0@) && final(self).model().entry(
                pushed->Ok_0@.entry_address,
            ) == Some(entry@),
            pushed is Ok && old(self).model().wf() ==> final(self).model().wf()
                && final(self).model().walkable() && final(self).model().exportable()
                && final(self).model().headers() == old(self).model().headers().push(
                pushed->Ok_0@,
            ),
            pushed is Err ==> pushed->Err_0 == HolochainError::ChainConsistencyError
                && final(self).model() == old(self).model(),
    ;
}

/// A source chain: a content store, the head header, and the actor that
/// holds the head's address. The chain also remembers whether it is known
/// to be unbroken, which it is as long as it grows by pushes alone.
pub struct Chain {
    chain_actor: ChainActor,
    top: Option<ChainHeader>,
    table_actor: ContentStore,
    unbroken: bool,
}

impl View for Chain {
    type V = ChainModel;

    closed spec fn view(&self) -> ChainModel {
        ChainModel { store: self.table_actor@, head: optional_header(self.top) }
    }
}

impl Chain {
    /// The address that the chain actor holds.
    pub closed spec fn head_address(&self) -> Option<Seq<char>> {
        self.chain_actor@
    }

    /// Whether the chain is known to be unbroken: since it was last empty
    /// it has grown by pushes alone.
    pub closed spec fn known_unbroken(&self) -> bool {
        self.unbroken
    }

    /// The chain actor holds the address of the head, and a chain that is
    /// known to be unbroken is unbroken, at all times.
    #[verifier::type_invariant]
    pub open spec fn consistent(&self) -> bool {
        &&& self.head_address() == optional_address(self@.head)
        &&& self.known_unbroken() ==> self@.wf()
    }

    /// What the actor that owns this chain answers to `request`. Reading
    /// the head and looking an entry up always succeed. What has to walk
    /// the chain is answered with a consistency error unless the chain is
    /// known to be unbroken.
    pub open spec fn reply_to(&self, request: ChainRequest) -> ChainReplyView {
        let broken = HolochainError::ChainConsistencyError;
        match request {
            ChainRequest::TopChainHeader => ChainReplyView::TopChainHeader(Ok(self@.head)),
            ChainRequest::TopChainHeaderOfType(entry_type) => ChainReplyView::TopChainHeaderOfType(
                if self.known_unbroken() {
                    Ok(self@.top_of_type(entry_type@))
                } else {
                    Err(broken)
                },
            ),
            ChainRequest::CreateNextChainHeader(entry_header) => {
                ChainReplyView::CreateNextChainHeader(
                    if self.known_unbroken() {
                        Ok(self@.draft(entry_header@))
                    } else {
                        Err(broken)
                    },
                )
            },
            ChainRequest::PushEntry(entry_header, entry) => ChainReplyView::PushEntry(
                if self.known_unbroken() && self@.accepts(entry_header@, entry@) {
                    Ok(self@.draft(entry_header@))
                } else {
                    Err(broken)
                },
            ),
            ChainRequest::GetEntry(address) => ChainReplyView::GetEntry(self@.entry(address@)),
            ChainRequest::Headers => ChainReplyView::Headers(
                if self.known_unbroken() {
                    Ok(self@.headers().reverse())
                } else {
                    Err(broken)
                },
            ),
            ChainRequest::Export => ChainReplyView::Export(
                if self.known_unbroken() {
                    Ok(records_json(self@.records().reverse()))
                } else {
                    Err(broken)
                },
            ),
        }
    }

    /// The chain after the actor has handled `request`: an accepted push
    /// on a chain known to be unbroken pushes, nothing else changes it.
    pub open spec fn model_after(&self, request: ChainRequest) -> ChainModel {
        match request {
            ChainRequest::PushEntry(entry_header, entry) => if self.known_unbroken()
                && self@.accepts(entry_header@, entry@) {
                self@.push(entry_header@, entry@)
            } else {
                self@
            },
            _ => self@,
        }
    }

    /// The empty chain over the store `table`.
    pub fn new(table: ContentStore) -> (chain: Chain)
        ensures
            chain@ == (ChainModel { store: table@, head: None }),
            chain.known_unbroken(),
            chain@.wf(),
            chain@.walkable(),
            chain@.exportable(),
            chain@.headers() == Seq::<HeaderView>::empty(),
    {
        let chain_actor = ChainActor::new();
        proof {
            use_type_invariant(&table);
            let chain = Chain { chain_actor, top: None, table_actor: table, unbroken: true };
            let none = Seq::<HeaderView>::empty();
            assert(linked(chain@.store, chain@.head, none));
            lemma_headers(chain@, none);
            lemma_headers_linked(chain@);
        }
        Chain { chain_actor, top: None, table_actor: table, unbroken: true }
    }

    /// Whether the chain is known to be unbroken: since it was last empty
    /// it has grown by pushes alone. Such a chain is unbroken, so all of
    /// it can be walked and exported. A chain whose head was set by hand
    /// is not known to be.
    pub fn validate(&self) -> (valid: bool)
        ensures
            valid == self.known_unbroken(),
            valid ==> self@.wf() && self@.walkable() && self@.exportable(),
    {
        proof {
            use_type_invariant(self);
            if self.unbroken {
                lemma_headers_linked(self@);
            }
        }
        self.unbroken
    }

    /// The store that the chain keeps its contents in.
    pub fn table(&self) -> (table: &ContentStore)
        ensures
            table@ == self@.store,
    {
        &self.table_actor
    }

    /// The entry stored under `address`, whether or not a header of this
    /// chain commits to it; nothing where the store holds no entry there.
    pub fn entry(&self, address: &Address) -> (entry: Option<Entry>)
        ensures
            optional_entry(entry) == self@.entry(address@),
    {
        match self.table_actor.get(address) {
            Some(Content::Entry(e)) => Some(e.clone()),
            _ => None,
        }
    }

    /// The header stored under `address`, whether or not it is one of this
    /// chain's headers; nothing where the store holds no header there.
    pub fn header(&self, address: &Address) -> (header: Option<ChainHeader>)
        ensures
            header is Some <==> self@.store.contains_key(address@) && self@.store[address@]
                is Header,
            header matches Some(h) ==> self@.store[address@] == ContentView::Header(h@),
    {
        match self.table_actor.get(address) {
            Some(Content::Header(h)) => Some(h.clone()),
            _ => None,
        }
    }

    /// The header that the next push announced by `entry_header` would put
    /// on top of the chain: it links to the current head and to the newest
    /// header of the same entry type, and leaves time stamp and signature
    /// empty. The chain itself stays as it is. The chain must be one that
    /// can be walked.
    pub fn create_next_chain_header(&self, entry_header: &EntryHeader) -> (header: ChainHeader)
        requires
            self@.walkable(),
        ensures
            header@ == self@.draft(entry_header@),
    {
        proof {
            use_type_invariant(self);
            lemma_headers_walkable(self@);
            reveal_strlit("");
            assert(""@ =~= Seq::<char>::empty());
        }
        let link = self.chain_actor.get_head();
        let link_same_type = match self.top_chain_header_of_type(entry_header.entry_type()) {
            Some(h) => Some(h.address()),
            None => None,
        };
        let entry_address = entry_header.entry_address();
        ChainHeader::new(entry_header.entry_type(), "", link, &entry_address, "", link_same_type)
    }

    /// A walk over the chain's headers, from the newest to the oldest. The
    /// chain must be one that can be walked.
    pub fn iter(&self) -> (walk: ChainIterator<'_>)
        requires
            self@.walkable(),
        ensures
            walk.store() == self@.store,
            walk.rest() == self@.headers(),
    {
        proof {
            lemma_headers_walkable(self@);
        }
        let walk = ChainIterator::new(&self.table_actor, &self.top);
        proof {
            walk.lemma_rest(self@.headers());
        }
        walk
    }

    /// Handles one request to the actor that owns this chain: does what the
    /// request asks, all of it before any other request is looked at, and
    /// answers with the reply of the request's kind.
    pub fn receive(&mut self, request: &ChainRequest) -> (reply: ChainReply)
        ensures
            reply@ == old(self).reply_to(*request),
            final(self)@ == old(self).model_after(*request),
            final(self).known_unbroken() == old(self).known_unbroken(),
    {
        let valid = self.validate();
        let broken = HolochainError::ChainConsistencyError;
        match request {
            ChainRequest::TopChainHeader => ChainReply::TopChainHeader(self.top_chain_header()),
            ChainRequest::TopChainHeaderOfType(entry_type) => ChainReply::TopChainHeaderOfType(
                if valid {
                    Ok(self.top_chain_header_of_type(entry_type.as_str()))
                } else {
                    Err(broken)
                },
            ),
            ChainRequest::CreateNextChainHeader(entry_header) => ChainReply::CreateNextChainHeader(
                if valid {
                    Ok(self.create_next_chain_header(entry_header))
                } else {
                    Err(broken)
                },
            ),
            ChainRequest::PushEntry(entry_header, entry) => ChainReply::PushEntry(
                if valid {
                    self.push_entry(entry_header, entry)
                } else {
                    Err(broken)
                },
            ),
            ChainRequest::GetEntry(address) => ChainReply::GetEntry(self.entry(address)),
            ChainRequest::Headers => ChainReply::Headers(
                if valid {
                    Ok(self.iter().collect())
                } else {
                    Err(broken)
                },
            ),
            ChainRequest::Export => ChainReply::Export(
                if valid {
                    self.to_json()
                } else {
                    Err(broken)
                },
            ),
        }
    }
}

impl PartialEq for Chain {
    fn eq(&self, other: &Chain) -> (equal: bool) {
        match (&self.top, &other.top) {
            (Some(a), Some(b)) => a == b,
            (None, None) => true,
            _ => false,
        }
    }
}

impl Eq for Chain {}

impl vstd::std_specs::cmp::PartialEqSpecImpl for Chain {
    open spec fn obeys_eq_spec() -> bool {
        true
    }

    /// Two chains are equal where their heads are: the headers link back
    /// by address, so the newest header stands for all.
    open spec fn eq_spec(&self, other: &Chain) -> bool {
        self@.head == other@.head
    }
}

impl SourceChain for Chain {
    open spec fn model(&self) -> ChainModel {
        self@
    }

    fn set_top_chain_header(&mut self, chain_header: &Option<ChainHeader>) -> (previous: Result<
        Option<ChainHeader>,
        HolochainError,
    >)
        ensures
            final(self).known_unbroken() == (chain_header is None),
    {
        proof {
            use_type_invariant(&*self);
        }
        let mut taken = Chain::new(ContentStore::new());
        core::mem::swap(self, &mut taken);
        let Chain { mut chain_actor, top, table_actor, unbroken: _ } = taken;
        let (head, address, empty) = match chain_header {
            Some(h) => (Some(h.clone()), Some(h.address()), false),
            None => (None, None, true),
        };
        chain_actor.set_head(address);
        proof {
            use_type_invariant(&table_actor);
            if empty {
                let after = ChainModel { store: table_actor@, head: None };
                let none = Seq::<HeaderView>::empty();
                assert(linked(after.store, after.head, none));
            }
        }
        *self = Chain { chain_actor, top: head, table_actor, unbroken: empty };
        Ok(top)
    }

    fn top_chain_header(&self) -> (top: Result<Option<ChainHeader>, HolochainError>) {
        Ok(
            match &self.top {
                Some(h) => Some(h.clone()),
                None => None,
            },
        )
    }

    fn top_chain_header_of_type(&self, entry_type: &str) -> (top: Option<ChainHeader>) {
        let mut walk = self.iter();
        loop
            invariant
                latest_of_type(self@.headers(), entry_type@) == latest_of_type(
                    walk.rest(),
                    entry_type@,
                ),
            decreases walk.rest().len(),
        {
            match walk.next() {
                None => {
                    return None;
                },
                Some(h) => {
                    if h.has_entry_type(entry_type) {
                        return Some(h);
                    }
                },
            }
        }
    }

    fn push_entry(&mut self, entry_header: &EntryHeader, entry: &Entry) -> (pushed: Result<
        ChainHeader,
        HolochainError,
    >)
        ensures
            final(self).known_unbroken() == old(self).known_unbroken(),
    {
        proof {
            use_type_invariant(&*self);
        }
        if !(*entry_header == entry.header()) {
            return Err(HolochainError::ChainConsistencyError);
        }
        let stored_entry = Content::Entry(entry.clone());
        if !self.table_actor.admits(&stored_entry) {
            return Err(HolochainError::ChainConsistencyError);
        }
        let chain_header = self.create_next_chain_header(entry_header);
        let stored_header = Content::Header(chain_header.clone());
        let header_address = chain_header.address();
        if header_address == entry.address() || !self.table_actor.admits(&stored_header) {
            return Err(HolochainError::ChainConsistencyError);
        }
        proof {
            if self@.wf() {
                lemma_push(self@, entry_header@, entry@);
                lemma_headers_linked(self@.push(entry_header@, entry@));
            }
        }
        let mut taken = Chain::new(ContentStore::new());
        core::mem::swap(self, &mut taken);
        let Chain { mut chain_actor, top: _, mut table_actor, unbroken } = taken;
        table_actor.put(stored_entry);
        table_actor.put(stored_header);
        chain_actor.set_head(Some(header_address));
        *self = Chain { chain_actor, top: Some(chain_header.clone()), table_actor, unbroken };
        Ok(chain_header)
    }
}

} // verus!
