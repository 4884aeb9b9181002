//! Content addresses: base58 text of the SHA2-256 multihash of a content.

use rust_base58::ToBase58;
use vstd::prelude::*;
use vstd::string::*;

verus! {

/// The multihash bytes (code, length, SHA2-256 digest) of `input`.
pub uninterp spec fn multihash_sha2_256(input: Seq<u8>) -> Seq<u8>;

/// The base58 text, in the Bitcoin alphabet, of `bytes`.
pub uninterp spec fn base58_text(bytes: Seq<u8>) -> Seq<char>;

/// The address under which a content with the given text is stored.
pub open spec fn address_of(content: Seq<char>) -> Seq<char> {
    base58_text(multihash_sha2_256(vstd::utf8::encode_utf8(content)))
}

/// Calls `multihash::encode` with `Hash::SHA2256`. That hash type is among
/// those the function supports, so it returns `Ok`; the bytes it returns
/// depend on `input` alone and are named by `multihash_sha2_256`.
#[verifier::external_body]
fn encode_sha2_256(input: &[u8]) -> (digest: Option<Vec<u8>>)
    ensures
        digest is Some,
        digest->Some_0@ == multihash_sha2_256(input@),
{
    multihash::encode(multihash::Hash::SHA2256, input).ok()
}

/// Calls `ToBase58::to_base58` on a byte slice. The text it returns depends
/// on the bytes alone and is named by `base58_text`.
#[verifier::external_body]
fn encode_base58(bytes: &[u8]) -> (text: String)
    ensures
        text@ == base58_text(bytes@),
{
    bytes.to_base58()
}

/// The identifier of a stored content, derived from the content's text.
#[derive(Debug)]
pub struct Address {
    text: String,
}

impl View for Address {
    type V = Seq<char>;

    closed spec fn view(&self) -> Seq<char> {
        self.text@
    }
}

impl Address {
    /// The empty address, which names no content.
    pub fn new() -> (address: Address)
        ensures
            address@ == Seq::<char>::empty(),
    {
        Address { text: String::new() }
    }

    /// The address whose text is `text`, taken as it is.
    pub fn from_text(text: &str) -> (address: Address)
        ensures
            address@ == text@,
    {
        Address { text: text.to_owned() }
    }

    /// The address of the content `content`.
    pub fn encode_from_str(content: &str) -> (address: Address)
        ensures
            address@ == address_of(content@),
    {
        let text = match encode_sha2_256(content.as_bytes()) {
            Some(bytes) => encode_base58(bytes.as_slice()),
            None => String::new(),
        };
        Address { text }
    }

    /// The address as text.
    pub fn as_str(&self) -> (text: &str)
        ensures
            text@ == self@,
    {
        self.text.as_str()
    }
}

impl Clone for Address {
    fn clone(&self) -> (copy: Address)
        ensures
            copy == *self,
    {
        Address { text: self.text.clone() }
    }
}

impl PartialEq for Address {
    fn eq(&self, other: &Address) -> (equal: bool) {
        self.text == other.text
    }
}

impl Eq for Address {}

impl vstd::std_specs::cmp::PartialEqSpecImpl for Address {
    open spec fn obeys_eq_spec() -> bool {
        true
    }

    open spec fn eq_spec(&self, other: &Address) -> bool {
        self@ == other@
    }
}

} // verus!
