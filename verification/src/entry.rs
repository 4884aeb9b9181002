//! Entries: typed content records, addressed by their content.

use crate::address::{address_of, Address};
use crate::json::{json_string_literal, push_json_string};
use vstd::prelude::*;
use vstd::string::*;

verus! {

/// What an entry is, as plain text.
pub struct EntryView {
    pub entry_type: Seq<char>,
    pub content: Seq<char>,
}

impl EntryView {
    /// The address of the entry: that of its content, whatever its type.
    pub open spec fn address(self) -> Seq<char> {
        address_of(self.content)
    }

    /// The JSON object that stands for the entry in an exported chain.
    pub open spec fn json(self) -> Seq<char> {
        "{\"content\":"@ + json_string_literal(self.content) + ",\"entry_type\":"@
            + json_string_literal(self.entry_type) + "}"@
    }
}

/// A typed content record. It never changes once made.
#[derive(Debug)]
pub struct Entry {
    entry_type: String,
    content: String,
}

impl View for Entry {
    type V = EntryView;

    closed spec fn view(&self) -> EntryView {
        EntryView { entry_type: self.entry_type@, content: self.content@ }
    }
}

impl Entry {
    /// The entry of type `entry_type` that holds `content`.
    pub fn new(entry_type: &str, content: &str) -> (entry: Entry)
        ensures
            entry@ == (EntryView { entry_type: entry_type@, content: content@ }),
    {
        Entry { entry_type: entry_type.to_owned(), content: content.to_owned() }
    }

    /// The entry's type.
    pub fn entry_type(&self) -> (entry_type: &str)
        ensures
            entry_type@ == self@.entry_type,
    {
        self.entry_type.as_str()
    }

    /// The entry's content.
    pub fn content(&self) -> (content: &str)
        ensures
            content@ == self@.content,
    {
        self.content.as_str()
    }

    /// The address under which the entry is stored.
    pub fn address(&self) -> (address: Address)
        ensures
            address@ == self@.address(),
    {
        Address::encode_from_str(self.content.as_str())
    }

    /// The draft that announces this entry to a chain: its type and address.
    pub fn header(&self) -> (draft: EntryHeader)
        ensures
            draft@ == (EntryHeaderView {
                entry_type: self@.entry_type,
                entry_address: self@.address(),
            }),
    {
        EntryHeader { entry_type: self.entry_type.clone(), entry_address: self.address() }
    }

    /// Appends the entry's JSON object to `out`.
    pub fn push_json(&self, out: &mut String)
        ensures
            final(out)@ == old(out)@ + self@.json(),
    {
        out.append("{\"content\":");
        push_json_string(out, self.content.as_str());
        out.append(",\"entry_type\":");
        push_json_string(out, self.entry_type.as_str());
        out.append("}");
    }
}

impl Clone for Entry {
    fn clone(&self) -> (copy: Entry)
        ensures
            copy == *self,
    {
        Entry { entry_type: self.entry_type.clone(), content: self.content.clone() }
    }
}

impl PartialEq for Entry {
    fn eq(&self, other: &Entry) -> (equal: bool) {
        self.entry_type == other.entry_type && self.content == other.content
    }
}

impl Eq for Entry {}

impl vstd::std_specs::cmp::PartialEqSpecImpl for Entry {
    open spec fn obeys_eq_spec() -> bool {
        true
    }

    open spec fn eq_spec(&self, other: &Entry) -> bool {
        self@ == other@
    }
}

/// What an entry draft is, as plain text.
pub struct EntryHeaderView {
    pub entry_type: Seq<char>,
    pub entry_address: Seq<char>,
}

/// The metadata with which an entry is announced to a chain: the entry's
/// type and the address of its content.
#[derive(Debug)]
pub struct EntryHeader {
    entry_type: String,
    entry_address: Address,
}

impl View for EntryHeader {
    type V = EntryHeaderView;

    closed spec fn view(&self) -> EntryHeaderView {
        EntryHeaderView { entry_type: self.entry_type@, entry_address: self.entry_address@ }
    }
}

impl EntryHeader {
    /// The draft for an entry of type `entry_type` stored at `entry_address`.
    pub fn new(entry_type: &str, entry_address: &Address) -> (draft: EntryHeader)
        ensures
            draft@ == (EntryHeaderView {
                entry_type: entry_type@,
                entry_address: entry_address@,
            }),
    {
        EntryHeader { entry_type: entry_type.to_owned(), entry_address: entry_address.clone() }
    }

    /// The announced entry type.
    pub fn entry_type(&self) -> (entry_type: &str)
        ensures
            entry_type@ == self@.entry_type,
    {
        self.entry_type.as_str()
    }

    /// The announced entry address.
    pub fn entry_address(&self) -> (entry_address: Address)
        ensures
            entry_address@ == self@.entry_address,
    {
        self.entry_address.clone()
    }
}

impl Clone for EntryHeader {
    fn clone(&self) -> (copy: EntryHeader)
        ensures
            copy == *self,
    {
        EntryHeader {
            entry_type: self.entry_type.clone(),
            entry_address: self.entry_address.clone(),
        }
    }
}

impl PartialEq for EntryHeader {
    fn eq(&self, other: &EntryHeader) -> (equal: bool) {
        self.entry_type == other.entry_type && self.entry_address == other.entry_address
    }
}

impl Eq for EntryHeader {}

impl vstd::std_specs::cmp::PartialEqSpecImpl for EntryHeader {
    open spec fn obeys_eq_spec() -> bool {
        true
    }

    open spec fn eq_spec(&self, other: &EntryHeader) -> bool {
        self@ == other@
    }
}

} // verus!
