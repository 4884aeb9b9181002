//! Chain headers: the immutable records that link entries into a chain.

use crate::address::{address_of, Address};
use crate::json::{
    json_optional_literal, json_string_literal, push_json_null, push_json_string,
};
use vstd::prelude::*;
use vstd::string::*;

verus! {

/// What a chain header is, as plain text.
pub struct HeaderView {
    pub entry_type: Seq<char>,
    pub timestamp: Seq<char>,
    pub link: Option<Seq<char>>,
    pub entry_address: Seq<char>,
    pub entry_signature: Seq<char>,
    pub link_same_type: Option<Seq<char>>,
}

impl HeaderView {
    /// The canonical serialisation of the header: a JSON object of its six
    /// fields, in this order and without white space.
    pub open spec fn content(self) -> Seq<char> {
        "{\"entry_type\":"@ + json_string_literal(self.entry_type) + ",\"timestamp\":"@
            + json_string_literal(self.timestamp) + ",\"link\":"@ + json_optional_literal(
            self.link,
        ) + ",\"entry_hash\":"@ + json_string_literal(self.entry_address)
            + ",\"entry_signature\":"@ + json_string_literal(self.entry_signature)
            + ",\"link_same_type\":"@ + json_optional_literal(self.link_same_type) + "}"@
    }

    /// The address of the header: that of its canonical serialisation.
    pub open spec fn address(self) -> Seq<char> {
        address_of(self.content())
    }
}

/// The text of an optional address.
pub open spec fn optional_text(address: Option<Address>) -> Option<Seq<char>> {
    match address {
        Some(a) => Some(a@),
        None => None,
    }
}

/// An immutable record that commits to one entry and points back at the
/// header before it and at the previous header of the same entry type.
#[derive(Debug)]
pub struct ChainHeader {
    entry_type: String,
    timestamp: String,
    link: Option<Address>,
    entry_address: Address,
    entry_signature: String,
    link_same_type: Option<Address>,
}

impl View for ChainHeader {
    type V = HeaderView;

    closed spec fn view(&self) -> HeaderView {
        HeaderView {
            entry_type: self.entry_type@,
            timestamp: self.timestamp@,
            link: optional_text(self.link),
            entry_address: self.entry_address@,
            entry_signature: self.entry_signature@,
            link_same_type: optional_text(self.link_same_type),
        }
    }
}

/// A copy of an optional address.
pub fn clone_optional(address: &Option<Address>) -> (copy: Option<Address>)
    ensures
        copy == *address,
{
    match address {
        Some(a) => Some(a.clone()),
        None => None,
    }
}

/// Appends the JSON text of an optional address to `out`.
fn push_json_optional(out: &mut String, address: &Option<Address>)
    ensures
        final(out)@ == old(out)@ + json_optional_literal(optional_text(*address)),
{
    match address {
        Some(a) => push_json_string(out, a.as_str()),
        None => push_json_null(out),
    }
}

impl ChainHeader {
    /// The header with the given six fields.
    pub fn new(
        entry_type: &str,
        timestamp: &str,
        link: Option<Address>,
        entry_address: &Address,
        entry_signature: &str,
        link_same_type: Option<Address>,
    ) -> (header: ChainHeader)
        ensures
            header@ == (HeaderView {
                entry_type: entry_type@,
                timestamp: timestamp@,
                link: optional_text(link),
                entry_address: entry_address@,
                entry_signature: entry_signature@,
                link_same_type: optional_text(link_same_type),
            }),
    {
        ChainHeader {
            entry_type: entry_type.to_owned(),
            timestamp: timestamp.to_owned(),
            link,
            entry_address: entry_address.clone(),
            entry_signature: entry_signature.to_owned(),
            link_same_type,
        }
    }

    /// The type of the entry that the header commits to.
    pub fn entry_type(&self) -> (entry_type: &str)
        ensures
            entry_type@ == self@.entry_type,
    {
        self.entry_type.as_str()
    }

    /// Whether the header commits to an entry of type `entry_type`.
    pub fn has_entry_type(&self, entry_type: &str) -> (same: bool)
        ensures
            same == (self@.entry_type == entry_type@),
    {
        self.entry_type == entry_type.to_owned()
    }

    /// The time of the commit, as text.
    pub fn timestamp(&self) -> (timestamp: &str)
        ensures
            timestamp@ == self@.timestamp,
    {
        self.timestamp.as_str()
    }

    /// The address of the header before this one, if there is one.
    pub fn link(&self) -> (link: Option<Address>)
        ensures
            optional_text(link) == self@.link,
    {
        clone_optional(&self.link)
    }

    /// The address of the entry that the header commits to.
    pub fn entry_address(&self) -> (entry_address: Address)
        ensures
            entry_address@ == self@.entry_address,
    {
        self.entry_address.clone()
    }

    /// The agent's signature of the entry, as text.
    pub fn entry_signature(&self) -> (entry_signature: &str)
        ensures
            entry_signature@ == self@.entry_signature,
    {
        self.entry_signature.as_str()
    }

    /// The address of the previous header of the same entry type, if there
    /// is one.
    pub fn link_same_type(&self) -> (link: Option<Address>)
        ensures
            optional_text(link) == self@.link_same_type,
    {
        clone_optional(&self.link_same_type)
    }

    /// Appends the header's canonical serialisation to `out`.
    pub fn push_json(&self, out: &mut String)
        ensures
            final(out)@ == old(out)@ + self@.content(),
    {
        out.append("{\"entry_type\":");
        push_json_string(out, self.entry_type.as_str());
        out.append(",\"timestamp\":");
        push_json_string(out, self.timestamp.as_str());
        out.append(",\"link\":");
        push_json_optional(out, &self.link);
        out.append(",\"entry_hash\":");
        push_json_string(out, self.entry_address.as_str());
        out.append(",\"entry_signature\":");
        push_json_string(out, self.entry_signature.as_str());
        out.append(",\"link_same_type\":");
        push_json_optional(out, &self.link_same_type);
        out.append("}");
    }

    /// The header's canonical serialisation.
    pub fn content(&self) -> (content: String)
        ensures
            content@ == self@.content(),
    {
        let mut content = String::new();
        self.push_json(&mut content);
        content
    }

    /// The address under which the header is stored.
    pub fn address(&self) -> (address: Address)
        ensures
            address@ == self@.address(),
    {
        let content = self.content();
        Address::encode_from_str(content.as_str())
    }
}

impl Clone for ChainHeader {
    fn clone(&self) -> (copy: ChainHeader)
        ensures
            copy == *self,
    {
        ChainHeader {
            entry_type: self.entry_type.clone(),
            timestamp: self.timestamp.clone(),
            link: clone_optional(&self.link),
            entry_address: self.entry_address.clone(),
            entry_signature: self.entry_signature.clone(),
            link_same_type: clone_optional(&self.link_same_type),
        }
    }
}

/// Whether two optional addresses hold the same text.
fn same_optional(a: &Option<Address>, b: &Option<Address>) -> (same: bool)
    ensures
        same == (optional_text(*a) == optional_text(*b)),
{
    match (a, b) {
        (Some(x), Some(y)) => x == y,
        (None, None) => true,
        _ => false,
    }
}

impl PartialEq for ChainHeader {
    fn eq(&self, other: &ChainHeader) -> (equal: bool) {
        self.entry_type == other.entry_type && self.timestamp == other.timestamp && same_optional(
            &self.link,
            &other.link,
        ) && self.entry_address == other.entry_address && self.entry_signature
            == other.entry_signature && same_optional(&self.link_same_type, &other.link_same_type)
    }
}

impl Eq for ChainHeader {}

impl vstd::std_specs::cmp::PartialEqSpecImpl for ChainHeader {
    open spec fn obeys_eq_spec() -> bool {
        true
    }

    open spec fn eq_spec(&self, other: &ChainHeader) -> bool {
        self@ == other@
    }
}

} // verus!
