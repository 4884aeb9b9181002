//! The dispatch bridge: the reducer's state together with the observers that
//! wait for responses. A caller registers an observer for the identity of
//! its dispatch; after every reduction each observer whose response has
//! arrived is handed that response, once, and leaves the registry.

use crate::action::{ActionResponse, ActionResponseView, ActionWrapper, ActionWrapperView};
use crate::error::HolochainError;
use crate::state::{State, StateView};
use vstd::prelude::*;

verus! {

/// A caller that waits for the response to the dispatch `id`.
#[derive(Clone, Copy, Debug, PartialEq, Eq, Structural)]
pub struct Observer {
    pub id: u64,
}

/// What a delivery is, as plain values.
pub struct DeliveryView {
    pub id: u64,
    pub response: ActionResponseView,
}

/// A response on its way to the observer that waited for it.
#[derive(Debug, PartialEq, Eq)]
pub struct Delivery {
    pub id: u64,
    pub response: ActionResponse,
}

impl View for Delivery {
    type V = DeliveryView;

    open spec fn view(&self) -> DeliveryView {
        DeliveryView { id: self.id, response: self.response@ }
    }
}

/// The views of a sequence of deliveries.
pub open spec fn delivery_views(deliveries: Seq<Delivery>) -> Seq<DeliveryView> {
    deliveries.map_values(|d: Delivery| d@)
}

/// The identities that a sequence of observers waits for.
pub open spec fn observer_ids(observers: Seq<Observer>) -> Seq<u64> {
    observers.map_values(|o: Observer| o.id)
}

/// What a round of notification leaves: the responses that nobody fetched,
/// the observers that still wait, and the deliveries made.
pub struct Notified {
    pub responses: Map<u64, ActionResponseView>,
    pub observers: Seq<u64>,
    pub deliveries: Seq<DeliveryView>,
}

/// One round of notification. The observers are asked in the order in which
/// they registered. One whose response is there takes it out of the
/// responses and leaves; the others stay, in their order.
pub open spec fn notified(responses: Map<u64, ActionResponseView>, observers: Seq<u64>) -> Notified
    decreases observers.len(),
{
    if observers.len() == 0 {
        Notified { responses, observers: Seq::empty(), deliveries: Seq::empty() }
    } else {
        let before = notified(responses, observers.drop_last());
        let id = observers.last();
        if before.responses.contains_key(id) {
            Notified {
                responses: before.responses.remove(id),
                observers: before.observers,
                deliveries: before.deliveries.push(
                    DeliveryView { id, response: before.responses[id] },
                ),
            }
        } else {
            Notified {
                responses: before.responses,
                observers: before.observers.push(id),
                deliveries: before.deliveries,
            }
        }
    }
}

/// Whether one of `deliveries` goes to the observer of the dispatch `id`.
pub open spec fn delivers(deliveries: Seq<DeliveryView>, id: u64) -> bool {
    exists|k: int| 0 <= k < deliveries.len() && (#[trigger] deliveries[k]).id == id
}

/// What holds of every round of notification. A response is delivered only
/// to an observer that waited for it, as it was stored, and is then gone
/// from the state; no identity is delivered to twice. An observer whose
/// response is there gets it, one whose response is not there stays, and no
/// response is left for an identity that somebody waited for. Responses
/// that nobody waited for stay as they are.
pub proof fn lemma_notified(responses: Map<u64, ActionResponseView>, observers: Seq<u64>)
    ensures
        forall|id: u64| #[trigger]
            notified(responses, observers).responses.contains_key(id) ==> responses.contains_key(
                id,
            ) && notified(responses, observers).responses[id] == responses[id]
                && !observers.contains(id),
        forall|id: u64|
            responses.contains_key(id) && !observers.contains(id) ==> #[trigger] notified(
                responses,
                observers,
            ).responses.contains_key(id),
        forall|k: int|
            0 <= k < notified(responses, observers).deliveries.len() ==> {
                let d = #[trigger] notified(responses, observers).deliveries[k];
                observers.contains(d.id) && responses.contains_key(d.id) && d.response
                    == responses[d.id]
            },
        forall|k: int, l: int|
            0 <= k < l < notified(responses, observers).deliveries.len() ==> (#[trigger] notified(
                responses,
                observers,
            ).deliveries[k]).id != (#[trigger] notified(responses, observers).deliveries[l]).id,
        forall|id: u64| #[trigger]
            notified(responses, observers).observers.contains(id) ==> observers.contains(id),
        forall|id: u64|
            observers.contains(id) && !responses.contains_key(id) ==> #[trigger] notified(
                responses,
                observers,
            ).observers.contains(id),
        forall|id: u64|
            observers.contains(id) && responses.contains_key(id) ==> #[trigger] delivers(
                notified(responses, observers).deliveries,
                id,
            ),
        notified(responses, observers).observers.len() + notified(
            responses,
            observers,
        ).deliveries.len() == observers.len(),
    decreases observers.len(),
{
    let round = notified(responses, observers);
    if observers.len() > 0 {
        let fewer = observers.drop_last();
        let last = observers.last();
        let before = notified(responses, fewer);
        lemma_notified(responses, fewer);
        assert forall|id: u64| observers.contains(id) <==> (fewer.contains(id) || id == last) by {
            if fewer.contains(id) {
                let j = choose|j: int| 0 <= j < fewer.len() && fewer[j] == id;
                assert(observers[j] == id);
            }
            if id == last {
                assert(observers[observers.len() - 1] == id);
            }
            if observers.contains(id) {
                let j = choose|j: int| 0 <= j < observers.len() && observers[j] == id;
                if j < fewer.len() {
                    assert(fewer[j] == id);
                }
            }
        }
        if before.responses.contains_key(last) {
            let made = DeliveryView { id: last, response: before.responses[last] };
            assert(round.deliveries == before.deliveries.push(made));
            assert forall|k: int, l: int| 0 <= k < l < round.deliveries.len() implies (
            #[trigger] round.deliveries[k]).id != (#[trigger] round.deliveries[l]).id by {
                if l == before.deliveries.len() {
                    assert(round.deliveries[k] == before.deliveries[k]);
                    assert(fewer.contains(before.deliveries[k].id));
                }
            }
            assert forall|id: u64| observers.contains(id) && responses.contains_key(
                id,
            ) implies #[trigger] delivers(round.deliveries, id) by {
                if id == last {
                    assert(round.deliveries[before.deliveries.len() as int].id == id);
                } else {
                    assert(delivers(before.deliveries, id));
                    let k = choose|k: int|
                        0 <= k < before.deliveries.len() && (#[trigger] before.deliveries[k]).id
                            == id;
                    assert(round.deliveries[k].id == id);
                }
            }
        } else {
            assert(round.observers == before.observers.push(last));
            assert forall|id: u64| #[trigger] round.observers.contains(id) implies observers.contains(
                id,
            ) by {
                let j = choose|j: int| 0 <= j < round.observers.len() && round.observers[j] == id;
                if j < before.observers.len() {
                    assert(before.observers[j] == id);
                    assert(before.observers.contains(id));
                }
            }
            assert forall|id: u64|
                observers.contains(id) && !responses.contains_key(
                    id,
                ) implies #[trigger] round.observers.contains(id) by {
                if fewer.contains(id) {
                    assert(before.observers.contains(id));
                    let j = choose|j: int|
                        0 <= j < before.observers.len() && before.observers[j] == id;
                    assert(round.observers[j] == id);
                } else {
                    assert(round.observers[before.observers.len() as int] == id);
                }
            }
            assert forall|id: u64| observers.contains(id) && responses.contains_key(
                id,
            ) implies #[trigger] delivers(round.deliveries, id) by {
                if id == last {
                    if fewer.contains(id) {
                        assert(delivers(before.deliveries, id));
                    } else {
                        assert(before.responses.contains_key(id));
                    }
                } else {
                    assert(delivers(before.deliveries, id));
                }
            }
        }
    }
}

/// The response that the first of `deliveries` for the dispatch `id`
/// carries, if one of them goes there.
pub open spec fn response_for(deliveries: Seq<DeliveryView>, id: u64) -> Option<
    ActionResponseView,
>
    decreases deliveries.len(),
{
    if deliveries.len() == 0 {
        None
    } else if deliveries[0].id == id {
        Some(deliveries[0].response)
    } else {
        response_for(deliveries.drop_first(), id)
    }
}

/// Among deliveries, the response for a dispatch is there exactly where one
/// of them goes to that dispatch.
pub proof fn lemma_response_for(deliveries: Seq<DeliveryView>, id: u64)
    ensures
        response_for(deliveries, id) is Some <==> delivers(deliveries, id),
        response_for(deliveries, id) matches Some(r) ==> exists|k: int|
            0 <= k < deliveries.len() && #[trigger] deliveries[k] == (DeliveryView {
                id,
                response: r,
            }),
    decreases deliveries.len(),
{
    if deliveries.len() > 0 {
        let rest = deliveries.drop_first();
        lemma_response_for(rest, id);
        if deliveries[0].id == id {
            assert(deliveries[0] == (DeliveryView { id, response: deliveries[0].response }));
        } else {
            if delivers(rest, id) {
                let k = choose|k: int| 0 <= k < rest.len() && (#[trigger] rest[k]).id == id;
                assert(deliveries[k + 1].id == id);
            }
            if delivers(deliveries, id) {
                let k = choose|k: int|
                    0 <= k < deliveries.len() && (#[trigger] deliveries[k]).id == id;
                assert(rest[k - 1].id == id);
            }
            if response_for(rest, id) is Some {
                let r = response_for(rest, id)->Some_0;
                let k = choose|k: int|
                    0 <= k < rest.len() && #[trigger] rest[k] == (DeliveryView { id, response: r });
                assert(deliveries[k + 1] == rest[k]);
            }
        }
    }
}

/// A waiting caller is not woken by somebody else's dispatch: where an
/// observer waits for a response that is not there, the reduction of a
/// dispatch with another identity delivers nothing to it and leaves it in
/// the registry, whether or not that dispatch registers an observer of its
/// own.
pub proof fn lemma_unrelated_dispatch_keeps_waiter(
    instance: InstanceView,
    wrapper: ActionWrapperView,
    waiter: u64,
)
    requires
        instance.observers.contains(waiter),
        !instance.state.responses.contains_key(waiter),
        wrapper.id != waiter,
    ensures
        instance.reduced(wrapper).observers.contains(waiter),
        !delivers(instance.delivered(wrapper), waiter),
        instance.registered(wrapper.id).reduced(wrapper).observers.contains(waiter),
        !delivers(instance.registered(wrapper.id).delivered(wrapper), waiter),
{
    let responses = instance.state.reduced(wrapper).responses;
    lemma_notified(responses, instance.observers);
    let more = instance.observers.push(wrapper.id);
    let j = choose|j: int| 0 <= j < instance.observers.len() && instance.observers[j] == waiter;
    assert(more[j] == waiter);
    lemma_notified(responses, more);
}

/// A dispatch whose identity nobody waits for yet is answered at once when
/// it registers its observer: the reduction delivers to it the response to
/// its own action, after which neither the observer nor the response is
/// left behind.
pub proof fn lemma_dispatch_is_answered(instance: InstanceView, wrapper: ActionWrapperView)
    requires
        !instance.observers.contains(wrapper.id),
    ensures
        response_for(instance.registered(wrapper.id).delivered(wrapper), wrapper.id) == Some(
            instance.state.response_to(wrapper.action),
        ),
        !instance.registered(wrapper.id).reduced(wrapper).observers.contains(wrapper.id),
        !instance.registered(wrapper.id).reduced(wrapper).state.responses.contains_key(
            wrapper.id,
        ),
{
    let responses = instance.state.reduced(wrapper).responses;
    let more = instance.observers.push(wrapper.id);
    assert(more.drop_last() =~= instance.observers);
    assert(more[more.len() - 1] == wrapper.id);
    lemma_notified(responses, instance.observers);
    lemma_notified(responses, more);
    let all = notified(responses, more).deliveries;
    lemma_response_for(all, wrapper.id);
}

/// `observers` without the first observer that waits for `id`.
pub open spec fn without_first(observers: Seq<u64>, id: u64) -> Seq<u64>
    decreases observers.len(),
{
    if observers.len() == 0 {
        observers
    } else if observers[0] == id {
        observers.drop_first()
    } else {
        seq![observers[0]] + without_first(observers.drop_first(), id)
    }
}

/// Taking out the first observer for `id` removes position `i` where that
/// is the first position that holds `id`, and nothing where none does.
pub proof fn lemma_without_first(observers: Seq<u64>, id: u64, i: int)
    requires
        0 <= i <= observers.len(),
        forall|j: int| 0 <= j < i ==> observers[j] != id,
        i < observers.len() ==> observers[i] == id,
    ensures
        i < observers.len() ==> without_first(observers, id) == observers.remove(i),
        i == observers.len() ==> without_first(observers, id) == observers,
    decreases observers.len(),
{
    if observers.len() > 0 {
        if i == 0 {
            assert(observers.drop_first() =~= observers.remove(0));
        } else {
            let rest = observers.drop_first();
            assert forall|j: int| 0 <= j < i - 1 implies rest[j] != id by {
                assert(rest[j] == observers[j + 1]);
            }
            lemma_without_first(rest, id, i - 1);
            if i < observers.len() {
                assert(seq![observers[0]] + rest.remove(i - 1) =~= observers.remove(i));
            } else {
                assert(seq![observers[0]] + rest =~= observers);
            }
        }
    }
}

/// What the bridge is, as plain values.
pub struct InstanceView {
    pub state: StateView,
    pub observers: Seq<u64>,
}

impl InstanceView {
    /// The state and the observers after the reducer has taken `wrapper`
    /// and the observers have been notified.
    pub open spec fn reduced(self, wrapper: ActionWrapperView) -> InstanceView {
        let state = self.state.reduced(wrapper);
        let round = notified(state.responses, self.observers);
        InstanceView {
            state: StateView { responses: round.responses, ..state },
            observers: round.observers,
        }
    }

    /// The deliveries that the reduction of `wrapper` makes.
    pub open spec fn delivered(self, wrapper: ActionWrapperView) -> Seq<DeliveryView> {
        notified(self.state.reduced(wrapper).responses, self.observers).deliveries
    }

    /// The bridge with one more observer, behind those already there.
    pub open spec fn registered(self, id: u64) -> InstanceView {
        InstanceView { state: self.state, observers: self.observers.push(id) }
    }
}

/// The reducer's side of the bridge: the process state and the registry of
/// observers.
pub struct Instance {
    state: State,
    observers: Vec<Observer>,
}

impl View for Instance {
    type V = InstanceView;

    closed spec fn view(&self) -> InstanceView {
        InstanceView { state: self.state@, observers: observer_ids(self.observers@) }
    }
}

impl Instance {
    /// The bridge around `state`, with nobody waiting.
    pub fn new(state: State) -> (instance: Instance)
        ensures
            instance@ == (InstanceView { state: state@, observers: Seq::empty() }),
    {
        let instance = Instance { state, observers: Vec::new() };
        assert(instance@.observers =~= Seq::<u64>::empty());
        instance
    }

    /// The process state.
    pub fn state(&self) -> (state: &State)
        ensures
            state@ == self@.state,
    {
        &self.state
    }

    /// How many observers wait.
    pub fn waiting(&self) -> (count: usize)
        ensures
            count == self@.observers.len(),
    {
        self.observers.len()
    }

    /// Whether an observer waits for the dispatch `id`.
    pub fn is_waiting(&self, id: u64) -> (waits: bool)
        ensures
            waits == self@.observers.contains(id),
    {
        let mut i: usize = 0;
        while i < self.observers.len()
            invariant
                i <= self.observers.len(),
                forall|j: int| 0 <= j < i ==> self@.observers[j] != id,
            decreases self.observers.len() - i,
        {
            if self.observers[i].id == id {
                assert(self@.observers[i as int] == id);
                return true;
            }
            i += 1;
        }
        false
    }

    /// The response that the first of `deliveries` for the dispatch `id`
    /// carries, if one of them goes there.
    pub fn find_response(deliveries: &Vec<Delivery>, id: u64) -> (response: Option<
        &ActionResponse,
    >)
        ensures
            response is Some <==> response_for(delivery_views(deliveries@), id) is Some,
            response matches Some(r) ==> Some(r@) == response_for(
                delivery_views(deliveries@),
                id,
            ),
    {
        let ghost all = delivery_views(deliveries@);
        let mut i: usize = 0;
        proof {
            assert(all.skip(0) =~= all);
        }
        while i < deliveries.len()
            invariant
                i <= deliveries.len(),
                all == delivery_views(deliveries@),
                response_for(all, id) == response_for(all.skip(i as int), id),
            decreases deliveries.len() - i,
        {
            proof {
                assert(all.skip(i as int).drop_first() =~= all.skip(i + 1));
                assert(all.skip(i as int)[0] == deliveries[i as int]@);
            }
            if deliveries[i].id == id {
                return Some(&deliveries[i].response);
            }
            i += 1;
        }
        None
    }

    /// Adds `observer` to the registry, behind those already there.
    pub fn register(&mut self, observer: Observer)
        ensures
            final(self)@ == old(self)@.registered(observer.id),
    {
        self.observers.push(observer);
        assert(self@.observers =~= old(self)@.observers.push(observer.id));
    }

    /// Ends the wait for the dispatch `id` when its caller's bound has run
    /// out. Where an observer still waits for `id`, the first such observer
    /// is withdrawn and the caller is told that the dispatch timed out.
    /// Where none waits, the response has been delivered and the wait is
    /// over anyway: a caller gets its response or a timeout, never both.
    pub fn expire(&mut self, id: u64) -> (ended: Result<(), HolochainError>)
        ensures
            ended is Err <==> old(self)@.observers.contains(id),
            ended is Err ==> ended->Err_0 == HolochainError::DispatchTimeout,
            final(self)@ == (InstanceView {
                state: old(self)@.state,
                observers: without_first(old(self)@.observers, id),
            }),
    {
        let mut i: usize = 0;
        while i < self.observers.len()
            invariant
                i <= self.observers.len(),
                *self == *old(self),
                forall|j: int| 0 <= j < i ==> self@.observers[j] != id,
            decreases self.observers.len() - i,
        {
            if self.observers[i].id == id {
                proof {
                    let ids = self@.observers;
                    assert(ids[i as int] == id);
                    lemma_without_first(ids, id, i as int);
                }
                self.observers.remove(i);
                assert(self@.observers =~= old(self)@.observers.remove(i as int));
                return Err(HolochainError::DispatchTimeout);
            }
            i += 1;
        }
        proof {
            lemma_without_first(self@.observers, id, i as int);
        }
        Ok(())
    }

    /// One round of notification: every observer whose response is there
    /// takes it out of the state and leaves the registry.
    fn notify(&mut self) -> (deliveries: Vec<Delivery>)
        ensures
            final(self)@.observers == notified(old(self)@.state.responses, old(self)@.observers).observers,
            final(self)@.state == (StateView {
                responses: notified(
                    old(self)@.state.responses,
                    old(self)@.observers,
                ).responses,
                ..old(self)@.state
            }),
            delivery_views(deliveries@) == notified(
                old(self)@.state.responses,
                old(self)@.observers,
            ).deliveries,
    {
        let ghost responses = self@.state.responses;
        let ghost waiting = self@.observers;
        let mut remaining: Vec<Observer> = Vec::new();
        let mut deliveries: Vec<Delivery> = Vec::new();
        let mut i: usize = 0;
        proof {
            assert(waiting.take(0) =~= Seq::<u64>::empty());
            assert(observer_ids(remaining@) =~= Seq::<u64>::empty());
            assert(delivery_views(deliveries@) =~= Seq::<DeliveryView>::empty());
        }
        while i < self.observers.len()
            invariant
                i <= self.observers.len(),
                self.observers == old(self).observers,
                waiting == observer_ids(self.observers@),
                self.state@.chain == old(self).state@.chain,
                self.state@.chain_unbroken == old(self).state@.chain_unbroken,
                self.state@.links == old(self).state@.links,
                notified(responses, waiting.take(i as int)) == (Notified {
                    responses: self.state@.responses,
                    observers: observer_ids(remaining@),
                    deliveries: delivery_views(deliveries@),
                }),
            decreases self.observers.len() - i,
        {
            let observer = self.observers[i];
            proof {
                assert(waiting.take(i + 1).drop_last() =~= waiting.take(i as int));
                assert(waiting.take(i + 1).last() == observer.id);
            }
            let ghost before_remaining = observer_ids(remaining@);
            let ghost before_deliveries = delivery_views(deliveries@);
            match self.state.take_response(observer.id) {
                Some(response) => {
                    deliveries.push(Delivery { id: observer.id, response });
                    assert(delivery_views(deliveries@) =~= before_deliveries.push(
                        DeliveryView { id: observer.id, response: response@ },
                    ));
                },
                None => {
                    remaining.push(observer);
                    assert(observer_ids(remaining@) =~= before_remaining.push(observer.id));
                    assert(self.state@.responses =~= notified(
                        responses,
                        waiting.take(i as int),
                    ).responses);
                },
            }
            i += 1;
        }
        proof {
            assert(waiting.take(i as int) =~= waiting);
        }
        self.observers = remaining;
        deliveries
    }

    /// Takes the dispatch `wrapper`: the reducer applies its action and
    /// stores the response, then the observers are notified. Returns the
    /// deliveries for the callers whose responses have arrived.
    pub fn reduce(&mut self, wrapper: &ActionWrapper) -> (deliveries: Vec<Delivery>)
        ensures
            final(self)@ == old(self)@.reduced(wrapper@),
            delivery_views(deliveries@) == old(self)@.delivered(wrapper@),
    {
        self.state.reduce(wrapper);
        self.notify()
    }

    /// Dispatches `wrapper` for a caller that waits for the response:
    /// registers an observer for the dispatch's identity, then lets the
    /// reducer take the dispatch. Returns the deliveries of that reduction.
    pub fn dispatch_action_with_observer(&mut self, wrapper: &ActionWrapper) -> (deliveries: Vec<
        Delivery,
    >)
        ensures
            final(self)@ == old(self)@.registered(wrapper@.id).reduced(wrapper@),
            delivery_views(deliveries@) == old(self)@.registered(wrapper@.id).delivered(wrapper@),
    {
        self.register(Observer { id: wrapper.id() });
        self.reduce(wrapper)
    }
}

} // verus!
