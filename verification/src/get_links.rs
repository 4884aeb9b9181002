//! The guest call that fetches links: its arguments, its status codes, and
//! what it returns for each response of the reducer.

use crate::action::{
    address_texts, Action, ActionIssuer, ActionResponse, ActionResponseView, ActionView,
    ActionWrapper, ActionWrapperView,
};
use crate::error::HolochainError;
use crate::address::Address;
use crate::instance::{
    delivery_views, lemma_dispatch_is_answered, response_for, Delivery, Instance,
};
use crate::json::{json_string_literal, parse_json, parsed_json, push_json_string, Json, JsonView};
use crate::state::links_under;
use vstd::prelude::*;
use vstd::string::*;

verus! {

/// What the arguments of the call are, as plain text.
pub struct GetLinksArgsView {
    pub entry_hash: Seq<char>,
    pub tag: Seq<char>,
}

impl GetLinksArgsView {
    /// The name of the attribute under which the links are kept.
    pub open spec fn attribute_name(self) -> Seq<char> {
        "link:"@ + self.entry_hash + ":"@ + self.tag
    }
}

/// The arguments of the call: the address of the entry whose links are
/// wanted, and the tag of the links.
#[derive(Debug)]
pub struct GetLinksArgs {
    pub entry_hash: Address,
    pub tag: String,
}

impl View for GetLinksArgs {
    type V = GetLinksArgsView;

    open spec fn view(&self) -> GetLinksArgsView {
        GetLinksArgsView { entry_hash: self.entry_hash@, tag: self.tag@ }
    }
}

impl GetLinksArgs {
    /// The name of the attribute under which the links are kept: `link:`,
    /// the entry's address, a colon and the tag.
    pub fn to_attribute_name(&self) -> (name: String)
        ensures
            name@ == self@.attribute_name(),
    {
        let mut name = String::new();
        name.append("link:");
        name.append(self.entry_hash.as_str());
        name.append(":");
        name.append(self.tag.as_str());
        assert(name@ =~= self@.attribute_name());
        name
    }
}

impl Clone for GetLinksArgs {
    fn clone(&self) -> (copy: GetLinksArgs)
        ensures
            copy == *self,
    {
        GetLinksArgs { entry_hash: self.entry_hash.clone(), tag: self.tag.clone() }
    }
}

impl PartialEq for GetLinksArgs {
    fn eq(&self, other: &GetLinksArgs) -> (equal: bool) {
        self.entry_hash == other.entry_hash && self.tag == other.tag
    }
}

impl Eq for GetLinksArgs {}

impl vstd::std_specs::cmp::PartialEqSpecImpl for GetLinksArgs {
    open spec fn obeys_eq_spec() -> bool {
        true
    }

    open spec fn eq_spec(&self, other: &GetLinksArgs) -> bool {
        self@ == other@
    }
}

/// The arguments that a JSON object stands for: its members `entry_hash`
/// and `tag` are strings. Nothing for any other value.
pub open spec fn args_of_json(json: JsonView) -> Option<GetLinksArgsView> {
    if json.member_text("entry_hash"@) is Some && json.member_text("tag"@) is Some {
        Some(
            GetLinksArgsView {
                entry_hash: json.member_text("entry_hash"@)->Some_0,
                tag: json.member_text("tag"@)->Some_0,
            },
        )
    } else {
        None
    }
}

/// The arguments that `text` stands for: it parses as JSON, to an object
/// that stands for arguments. Nothing for any other text.
pub open spec fn args_of_text(text: Seq<char>) -> Option<GetLinksArgsView> {
    match parsed_json(text) {
        Some(json) => args_of_json(json),
        None => None,
    }
}

/// The view of optional arguments.
pub open spec fn optional_args(args: Option<GetLinksArgs>) -> Option<GetLinksArgsView> {
    match args {
        Some(a) => Some(a@),
        None => None,
    }
}

/// The arguments that a JSON object stands for, if it stands for any.
pub fn decode_args(json: &Json) -> (args: Option<GetLinksArgs>)
    ensures
        optional_args(args) == args_of_json(json@),
{
    let entry_hash = match json.member_text("entry_hash") {
        Some(t) => Address::from_text(t),
        None => { return None; },
    };
    let tag = match json.member_text("tag") {
        Some(t) => t.to_owned(),
        None => { return None; },
    };
    Some(GetLinksArgs { entry_hash, tag })
}

/// The arguments that `text` stands for, if it stands for any.
pub fn parse_args(text: &str) -> (args: Option<GetLinksArgs>)
    ensures
        optional_args(args) == args_of_text(text@),
{
    match parse_json(text) {
        Some(json) => decode_args(&json),
        None => None,
    }
}

/// The status codes that a guest call can return in place of a result.
#[derive(Clone, Copy, Debug, PartialEq, Eq, Structural)]
pub enum HcApiReturnCode {
    Success,
    Error,
    ErrorSerdeJson,
    ErrorPageOverflow,
    ErrorActionResult,
}

impl HcApiReturnCode {
    /// The number that stands for the code: its rank in the upper half of
    /// 32 bits.
    pub open spec fn number(self) -> int {
        match self {
            HcApiReturnCode::Success => 0,
            HcApiReturnCode::Error => 0x1_0000,
            HcApiReturnCode::ErrorSerdeJson => 0x2_0000,
            HcApiReturnCode::ErrorPageOverflow => 0x3_0000,
            HcApiReturnCode::ErrorActionResult => 0x4_0000,
        }
    }

    /// The number that stands for the code.
    pub fn code(&self) -> (code: i32)
        ensures
            code == self.number(),
    {
        match self {
            HcApiReturnCode::Success => 0,
            HcApiReturnCode::Error => 0x1_0000,
            HcApiReturnCode::ErrorSerdeJson => 0x2_0000,
            HcApiReturnCode::ErrorPageOverflow => 0x3_0000,
            HcApiReturnCode::ErrorActionResult => 0x4_0000,
        }
    }
}

/// The JSON string literals of `links`, in their order, with a comma
/// between every two.
pub open spec fn joined_links(links: Seq<Seq<char>>) -> Seq<char>
    decreases links.len(),
{
    if links.len() == 0 {
        Seq::empty()
    } else if links.len() == 1 {
        json_string_literal(links[0])
    } else {
        joined_links(links.drop_last()) + ","@ + json_string_literal(links.last())
    }
}

/// The JSON array of strings that stands for `links`.
pub open spec fn links_json(links: Seq<Seq<char>>) -> Seq<char> {
    "["@ + joined_links(links) + "]"@
}

/// The JSON array of strings that stands for `links`.
pub fn encode_links(links: &Vec<Address>) -> (text: String)
    ensures
        text@ == links_json(address_texts(links@)),
{
    let ghost texts = address_texts(links@);
    let mut text = String::new();
    text.append("[");
    let mut i: usize = 0;
    while i < links.len()
        invariant
            i <= links.len(),
            texts == address_texts(links@),
            text@ == "["@ + joined_links(texts.take(i as int)),
        decreases links.len() - i,
    {
        if i > 0 {
            text.append(",");
        }
        push_json_string(&mut text, links[i].as_str());
        proof {
            assert(texts.take(i + 1).drop_last() =~= texts.take(i as int));
            assert(texts.take(i + 1).last() == links[i as int]@);
            assert(text@ =~= "["@ + joined_links(texts.take(i + 1)));
        }
        i += 1;
    }
    proof {
        assert(texts.take(i as int) =~= texts);
    }
    text.append("]");
    text
}

/// What a guest call returns, as plain text.
pub enum GuestReturnView {
    Encoded(Seq<char>),
    Code(HcApiReturnCode),
}

/// What a guest call returns: the encoded result, or a status code.
#[derive(Debug, PartialEq, Eq)]
pub enum GuestReturn {
    Encoded(String),
    Code(HcApiReturnCode),
}

impl View for GuestReturn {
    type V = GuestReturnView;

    open spec fn view(&self) -> GuestReturnView {
        match self {
            GuestReturn::Encoded(text) => GuestReturnView::Encoded(text@),
            GuestReturn::Code(code) => GuestReturnView::Code(*code),
        }
    }
}

/// What the call returns for `response`: the links as a JSON array where
/// the response carries links, the code for a failed action for any other.
pub open spec fn return_for(response: ActionResponseView) -> GuestReturnView {
    match response {
        ActionResponseView::GetLinks(Ok(links)) => GuestReturnView::Encoded(links_json(links)),
        _ => GuestReturnView::Code(HcApiReturnCode::ErrorActionResult),
    }
}

/// What the call returns for `response`.
pub fn encode_response(response: &ActionResponse) -> (returned: GuestReturn)
    ensures
        returned@ == return_for(response@),
{
    match response {
        ActionResponse::GetLinks(Ok(links)) => GuestReturn::Encoded(encode_links(links)),
        _ => GuestReturn::Code(HcApiReturnCode::ErrorActionResult),
    }
}

/// A finished guest call: what it returns to the guest, and every delivery
/// that its reduction made, its own among them, for the callers that wait
/// elsewhere.
#[derive(Debug, PartialEq, Eq)]
pub struct GuestCall {
    pub returned: GuestReturn,
    pub deliveries: Vec<Delivery>,
}

/// The dispatch that a call with the arguments `args` makes when `issued`
/// identities have been handed out.
pub open spec fn dispatch_of(args: GetLinksArgsView, issued: u64) -> ActionWrapperView {
    ActionWrapperView { action: ActionView::GetLinks(args), id: issued }
}

/// The first half of the guest call: decodes the serialised arguments and
/// wraps them into a dispatch with a fresh identity. Arguments that do not
/// decode give the code for a JSON error, and an issuer without identities
/// the general error code; no identity is used up in either case.
pub fn begin_get_links(issuer: &mut ActionIssuer, args: &str) -> (dispatch: Result<
    ActionWrapper,
    HcApiReturnCode,
>)
    ensures
        dispatch is Ok <==> args_of_text(args@) is Some && old(issuer).issued() < u64::MAX,
        dispatch matches Ok(wrapper) ==> wrapper@ == dispatch_of(
            args_of_text(args@)->Some_0,
            old(issuer).issued(),
        ) && final(issuer).issued() == old(issuer).issued() + 1,
        dispatch matches Err(code) ==> final(issuer).issued() == old(issuer).issued() && code
            == (if args_of_text(args@) is None {
            HcApiReturnCode::ErrorSerdeJson
        } else {
            HcApiReturnCode::Error
        }),
{
    let input = match parse_args(args) {
        Some(input) => input,
        None => {
            return Err(HcApiReturnCode::ErrorSerdeJson);
        },
    };
    match issuer.issue(Action::GetLinks(input)) {
        Some(wrapper) => Ok(wrapper),
        None => Err(HcApiReturnCode::Error),
    }
}

/// What the call returns for the outcome of its wait: what stands for the
/// response where one came, the code for a failed action where the wait
/// ended without one.
pub open spec fn return_for_outcome(
    outcome: Result<ActionResponseView, HolochainError>,
) -> GuestReturnView {
    match outcome {
        Ok(response) => return_for(response),
        Err(_) => GuestReturnView::Code(HcApiReturnCode::ErrorActionResult),
    }
}

/// The view of the outcome of a wait.
pub open spec fn outcome_view(outcome: Result<&ActionResponse, HolochainError>) -> Result<
    ActionResponseView,
    HolochainError,
> {
    match outcome {
        Ok(response) => Ok(response@),
        Err(e) => Err(e),
    }
}

/// The second half of the guest call: what the call returns for the
/// outcome of its wait.
pub fn finish_get_links(outcome: Result<&ActionResponse, HolochainError>) -> (returned:
    GuestReturn)
    ensures
        returned@ == return_for_outcome(outcome_view(outcome)),
{
    match outcome {
        Ok(response) => encode_response(response),
        Err(_) => GuestReturn::Code(HcApiReturnCode::ErrorActionResult),
    }
}

/// The guest call that fetches links. The serialised arguments are decoded,
/// wrapped into a dispatch with a fresh identity and handed to the bridge
/// together with an observer for that identity; the response that comes
/// back is encoded for the guest.
///
/// Arguments that do not decode give the code for a JSON error, and an
/// issuer without identities the general error code; the bridge is not
/// touched in either case. Where somebody already waits for the identity,
/// it is not fresh and a response could not be told from that caller's:
/// nothing is dispatched and the code for a failed action is returned. In
/// every other case the reduction answers the dispatch at once, and the
/// links are returned as they stand in the state.
pub fn invoke_get_links(instance: &mut Instance, issuer: &mut ActionIssuer, args: &str) -> (call:
    GuestCall)
    ensures
        final(issuer).issued() == (if args_of_text(args@) is Some && old(issuer).issued()
            < u64::MAX {
            (old(issuer).issued() + 1) as u64
        } else {
            old(issuer).issued()
        }),
        args_of_text(args@) is None ==> call.returned@ == GuestReturnView::Code(
            HcApiReturnCode::ErrorSerdeJson,
        ) && call.deliveries@.len() == 0 && final(instance)@ == old(instance)@,
        args_of_text(args@) is Some && old(issuer).issued() == u64::MAX ==> call.returned@
            == GuestReturnView::Code(HcApiReturnCode::Error) && call.deliveries@.len() == 0
            && final(instance)@ == old(instance)@,
        args_of_text(args@) is Some && old(issuer).issued() < u64::MAX ==> {
            let input = args_of_text(args@)->Some_0;
            let wrapper = dispatch_of(input, old(issuer).issued());
            let before = old(instance)@;
            let waiting = before.registered(wrapper.id);
            &&& before.observers.contains(wrapper.id) ==> {
                &&& call.returned@ == GuestReturnView::Code(HcApiReturnCode::ErrorActionResult)
                &&& call.deliveries@.len() == 0
                &&& final(instance)@ == before
            }
            &&& !before.observers.contains(wrapper.id) ==> {
                &&& call.returned@ == GuestReturnView::Encoded(
                    links_json(links_under(before.state.links, input.attribute_name())),
                )
                &&& delivery_views(call.deliveries@) == waiting.delivered(wrapper)
                &&& response_for(waiting.delivered(wrapper), wrapper.id) == Some(
                    before.state.response_to(wrapper.action),
                )
                &&& final(instance)@ == waiting.reduced(wrapper)
                &&& !final(instance)@.observers.contains(wrapper.id)
                &&& !final(instance)@.state.responses.contains_key(wrapper.id)
            }
        },
{
    let action_wrapper = match begin_get_links(issuer, args) {
        Ok(wrapper) => wrapper,
        Err(code) => {
            return GuestCall { returned: GuestReturn::Code(code), deliveries: Vec::new() };
        },
    };
    if instance.is_waiting(action_wrapper.id()) {
        return GuestCall {
            returned: finish_get_links(Err(HolochainError::DispatchTimeout)),
            deliveries: Vec::new(),
        };
    }
    proof {
        lemma_dispatch_is_answered(instance@, action_wrapper@);
    }
    let deliveries = instance.dispatch_action_with_observer(&action_wrapper);
    let returned = match Instance::find_response(&deliveries, action_wrapper.id()) {
        Some(response) => finish_get_links(Ok(response)),
        None => {
            proof {
                assert(false);
            }
            finish_get_links(Err(HolochainError::DispatchTimeout))
        },
    };
    GuestCall { returned, deliveries }
}

} // verus!
