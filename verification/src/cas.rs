//! The content-addressable store: entries and headers, each kept under the
//! address of its canonical serialisation.

use crate::address::{address_of, Address};
use crate::entry::{Entry, EntryView};
use crate::header::{ChainHeader, HeaderView};
use vstd::hash_map::StringHashMap;
use vstd::prelude::*;

verus! {

/// What a stored content is, as plain text.
pub enum ContentView {
    Entry(EntryView),
    Header(HeaderView),
}

impl ContentView {
    /// The canonical serialisation of the content: what an entry holds, or
    /// the JSON object of a header.
    pub open spec fn canonical(self) -> Seq<char> {
        match self {
            ContentView::Entry(e) => e.content,
            ContentView::Header(h) => h.content(),
        }
    }

    /// The address under which the content belongs: that of its canonical
    /// serialisation.
    pub open spec fn address(self) -> Seq<char> {
        match self {
            ContentView::Entry(e) => e.address(),
            ContentView::Header(h) => h.address(),
        }
    }
}

/// Something the store can hold: an entry or a chain header.
#[derive(Debug)]
pub enum Content {
    Entry(Entry),
    Header(ChainHeader),
}

impl View for Content {
    type V = ContentView;

    open spec fn view(&self) -> ContentView {
        match self {
            Content::Entry(e) => ContentView::Entry(e@),
            Content::Header(h) => ContentView::Header(h@),
        }
    }
}

impl Content {
    /// The canonical serialisation of the content.
    pub fn canonical(&self) -> (text: String)
        ensures
            text@ == self@.canonical(),
    {
        match self {
            Content::Entry(e) => e.content().to_owned(),
            Content::Header(h) => h.content(),
        }
    }

    /// The address under which the content belongs.
    pub fn address(&self) -> (address: Address)
        ensures
            address@ == self@.address(),
            address@ == address_of(self@.canonical()),
    {
        match self {
            Content::Entry(e) => e.address(),
            Content::Header(h) => h.address(),
        }
    }
}

impl Clone for Content {
    fn clone(&self) -> (copy: Content)
        ensures
            copy == *self,
    {
        match self {
            Content::Entry(e) => Content::Entry(e.clone()),
            Content::Header(h) => Content::Header(h.clone()),
        }
    }
}

impl PartialEq for Content {
    fn eq(&self, other: &Content) -> (equal: bool) {
        match (self, other) {
            (Content::Entry(a), Content::Entry(b)) => a == b,
            (Content::Header(a), Content::Header(b)) => a == b,
            _ => false,
        }
    }
}

impl Eq for Content {}

impl vstd::std_specs::cmp::PartialEqSpecImpl for Content {
    open spec fn obeys_eq_spec() -> bool {
        true
    }

    open spec fn eq_spec(&self, other: &Content) -> bool {
        self@ == other@
    }
}

/// Whether every content of `store` stands under its own address.
pub open spec fn content_addressed(store: Map<Seq<char>, ContentView>) -> bool {
    forall|a: Seq<char>| #[trigger] store.contains_key(a) ==> store[a].address() == a
}

/// Whether `later` holds everything that `earlier` holds, unchanged.
pub open spec fn extends(
    later: Map<Seq<char>, ContentView>,
    earlier: Map<Seq<char>, ContentView>,
) -> bool {
    forall|a: Seq<char>| #[trigger]
        earlier.contains_key(a) ==> later.contains_key(a) && later[a] == earlier[a]
}

/// The state of the store: a map from addresses to contents.
pub struct ContentStore {
    contents: StringHashMap<Content>,
}

impl View for ContentStore {
    type V = Map<Seq<char>, ContentView>;

    closed spec fn view(&self) -> Map<Seq<char>, ContentView> {
        Map::new(|a: Seq<char>| self.contents@.contains_key(a), |a: Seq<char>| self.contents@[a]@)
    }
}

impl ContentStore {
    /// Every content of a store stands under its own address, at all times.
    #[verifier::type_invariant]
    pub open spec fn addressed(&self) -> bool {
        content_addressed(self@)
    }

    /// The empty store.
    pub fn new() -> (store: ContentStore)
        ensures
            store@ == Map::<Seq<char>, ContentView>::empty(),
    {
        let store = ContentStore { contents: StringHashMap::new() };
        assert(store@ =~= Map::<Seq<char>, ContentView>::empty());
        store
    }

    /// Whether every content of the store stands under its own address. It
    /// always does: nothing can be put under another address than its own.
    pub fn validate(&self) -> (valid: bool)
        ensures
            valid,
            content_addressed(self@),
    {
        proof {
            use_type_invariant(self);
        }
        true
    }

    /// Stores `content` under its address and returns the address. Whatever
    /// stood there before is replaced; putting the same content twice leaves
    /// the store as it is after the first time.
    pub fn put(&mut self, content: Content) -> (address: Address)
        ensures
            address@ == content@.address(),
            final(self)@ == old(self)@.insert(content@.address(), content@),
    {
        proof {
            use_type_invariant(&*self);
        }
        let address = content.address();
        let mut contents = StringHashMap::new();
        core::mem::swap(&mut contents, &mut self.contents);
        contents.insert(address.as_str().to_owned(), content);
        proof {
            let after = ContentStore { contents };
            assert(after@ =~= old(self)@.insert(content@.address(), content@));
        }
        self.contents = contents;
        address
    }

    /// The content stored under `address`, if there is one.
    pub fn get(&self, address: &Address) -> (content: Option<&Content>)
        ensures
            content is Some <==> self@.contains_key(address@),
            content matches Some(c) ==> c@ == self@[address@],
    {
        self.contents.get(address.as_str())
    }

    /// How many contents the store holds.
    pub fn len(&self) -> (count: usize)
        ensures
            count == self@.dom().len(),
    {
        broadcast use vstd::hash_map::axiom_string_hash_map_spec_len;

        assert(self@.dom() =~= self.contents@.dom());
        self.contents.len()
    }

    /// Whether something is stored under `address`.
    pub fn contains(&self, address: &Address) -> (present: bool)
        ensures
            present == self@.contains_key(address@),
    {
        self.contents.contains_key(address.as_str())
    }

    /// Whether `content` can be put without replacing a different content:
    /// its address is free, or holds the very same content.
    pub fn admits(&self, content: &Content) -> (free: bool)
        ensures
            free == admits_content(self@, content@),
    {
        let address = content.address();
        match self.contents.get(address.as_str()) {
            Some(held) => held == content,
            None => true,
        }
    }
}

/// Whether `content` can be put into `store` without replacing a different
/// content.
pub open spec fn admits_content(store: Map<Seq<char>, ContentView>, content: ContentView) -> bool {
    store.contains_key(content.address()) ==> store[content.address()] == content
}

} // verus!
