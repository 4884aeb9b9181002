//! What holds of every source chain, proved over the chain model.

use crate::cas::{content_addressed, extends, ContentView};
use crate::chain::model::{
    anchored, draft_of, latest_of_type, lemma_headers, lemma_headers_linked,
    lemma_linked_extends, lemma_push, linked, replay, ChainModel,
};
use crate::entry::{EntryHeaderView, EntryView};
use crate::header::HeaderView;
use vstd::prelude::*;

verus! {

/// The chain after pushing `entries` one after the other, each announced by
/// its own draft.
pub open spec fn pushed_all(chain: ChainModel, entries: Seq<EntryView>) -> ChainModel
    decreases entries.len(),
{
    if entries.len() == 0 {
        chain
    } else {
        pushed_all(chain, entries.drop_last()).push(draft_of(entries.last()), entries.last())
    }
}

/// Whether each of the pushes of `entries`, one after the other, is accepted.
pub open spec fn all_accepted(chain: ChainModel, entries: Seq<EntryView>) -> bool
    decreases entries.len(),
{
    entries.len() == 0 || (all_accepted(chain, entries.drop_last()) && pushed_all(
        chain,
        entries.drop_last(),
    ).accepts(draft_of(entries.last()), entries.last()))
}

/// The header that push number `i` (from 0) of `entries` returns.
pub open spec fn pushed_header(chain: ChainModel, entries: Seq<EntryView>, i: int) -> HeaderView {
    pushed_all(chain, entries.take(i)).draft(draft_of(entries[i]))
}

/// After any number of accepted pushes the chain is valid, its headers are
/// the ones it had followed by the headers that the pushes returned, in the
/// order of the pushes, and its newest header is the one that the last push
/// returned. No push is lost and none counts twice.
pub proof fn lemma_pushes(chain: ChainModel, entries: Seq<EntryView>)
    requires
        chain.wf(),
        all_accepted(chain, entries),
    ensures
        pushed_all(chain, entries).wf(),
        pushed_all(chain, entries).headers() == chain.headers() + Seq::new(
            entries.len(),
            |i: int| pushed_header(chain, entries, i),
        ),
        pushed_all(chain, entries).headers().len() == chain.headers().len() + entries.len(),
        entries.len() > 0 ==> pushed_all(chain, entries).top() == Some(
            pushed_header(chain, entries, entries.len() - 1),
        ),
        extends(pushed_all(chain, entries).store, chain.store),
    decreases entries.len(),
{
    let returned = Seq::new(entries.len(), |i: int| pushed_header(chain, entries, i));
    if entries.len() == 0 {
        assert(chain.headers() + returned =~= chain.headers());
    } else {
        let fewer = entries.drop_last();
        let before = pushed_all(chain, fewer);
        lemma_pushes(chain, fewer);
        lemma_push(before, draft_of(entries.last()), entries.last());
        let returned_before = Seq::new(fewer.len(), |i: int| pushed_header(chain, fewer, i));
        assert(entries.take(entries.len() - 1) =~= fewer);
        assert forall|i: int| 0 <= i < fewer.len() implies returned_before[i] == returned[i] by {
            assert(fewer.take(i) =~= entries.take(i));
        }
        assert(chain.headers() + returned =~= (chain.headers() + returned_before).push(
            before.draft(draft_of(entries.last())),
        ));
    }
}

/// An entry that was pushed is found under the entry address of the header
/// that the push returned, unchanged.
pub proof fn lemma_pushed_entry_is_found(
    chain: ChainModel,
    draft: EntryHeaderView,
    entry: EntryView,
)
    requires
        chain.wf(),
        chain.accepts(draft, entry),
    ensures
        chain.push(draft, entry).entry(chain.draft(draft).entry_address) == Some(entry),
{
}

/// A push makes its header the newest of the header's own entry type, and
/// leaves the newest header of every other type as it was.
pub proof fn lemma_push_and_top_of_type(
    chain: ChainModel,
    draft: EntryHeaderView,
    entry: EntryView,
    entry_type: Seq<char>,
)
    requires
        chain.wf(),
        chain.accepts(draft, entry),
    ensures
        entry_type == entry.entry_type ==> chain.push(draft, entry).top_of_type(entry_type)
            == Some(chain.draft(draft)),
        entry_type != entry.entry_type ==> chain.push(draft, entry).top_of_type(entry_type)
            == chain.top_of_type(entry_type),
{
    lemma_push(chain, draft, entry);
    let longer = chain.headers().push(chain.draft(draft));
    assert(longer.drop_last() =~= chain.headers());
}

/// The newest header of a type is one of the chain's headers, has that
/// type, and no header pushed after it has that type; where there is none,
/// no header of the chain has that type.
pub proof fn lemma_latest_of_type(history: Seq<HeaderView>, entry_type: Seq<char>)
    ensures
        match latest_of_type(history, entry_type) {
            Some(h) => exists|i: int|
                0 <= i < history.len() && history[i] == h && h.entry_type == entry_type && forall|
                    j: int,
                |
                    i < j < history.len() ==> (#[trigger] history[j]).entry_type != entry_type,
            None => forall|j: int|
                0 <= j < history.len() ==> (#[trigger] history[j]).entry_type != entry_type,
        },
    decreases history.len(),
{
    if history.len() > 0 {
        if history.last().entry_type == entry_type {
            let i = history.len() - 1;
            assert(history[i] == history.last());
        } else {
            let fewer = history.drop_last();
            lemma_latest_of_type(fewer, entry_type);
            match latest_of_type(fewer, entry_type) {
                Some(h) => {
                    let i = choose|i: int|
                        0 <= i < fewer.len() && fewer[i] == h && h.entry_type == entry_type
                            && forall|j: int|
                            i < j < fewer.len() ==> (#[trigger] fewer[j]).entry_type
                                != entry_type;
                    assert(history[i] == h);
                    assert forall|j: int| i < j < history.len() implies (
                    #[trigger] history[j]).entry_type != entry_type by {
                        if j < fewer.len() {
                            assert(fewer[j] == history[j]);
                        }
                    }
                },
                None => {
                    assert forall|j: int| 0 <= j < history.len() implies (
                    #[trigger] history[j]).entry_type != entry_type by {
                        if j < fewer.len() {
                            assert(fewer[j] == history[j]);
                        }
                    }
                },
            }
        }
    }
}

/// No header of a chain links to itself.
pub proof fn lemma_no_self_link(
    store: Map<Seq<char>, ContentView>,
    head: Option<HeaderView>,
    history: Seq<HeaderView>,
    i: int,
)
    requires
        linked(store, head, history),
        0 <= i < history.len(),
    ensures
        history[i].link != Some(history[i].address()),
    decreases i,
{
    assert(anchored(store, history, i));
    if i > 0 {
        assert(history.take(i).last() == history[i - 1]);
        assert(anchored(store, history, i - 1));
        lemma_no_self_link(store, head, history, i - 1);
    }
}

/// No two headers of a chain are the same, and no two stand under the same
/// address: a chain never runs into itself.
pub proof fn lemma_headers_distinct(
    store: Map<Seq<char>, ContentView>,
    head: Option<HeaderView>,
    history: Seq<HeaderView>,
    i: int,
    j: int,
)
    requires
        linked(store, head, history),
        0 <= i < j < history.len(),
    ensures
        history[i] != history[j],
        history[i].address() != history[j].address(),
    decreases i,
{
    assert(anchored(store, history, i));
    assert(anchored(store, history, j));
    assert(history.take(j).last() == history[j - 1]);
    if i > 0 {
        assert(history.take(i).last() == history[i - 1]);
        assert(anchored(store, history, i - 1));
        assert(anchored(store, history, j - 1));
        lemma_headers_distinct(store, head, history, i - 1, j - 1);
    }
}

/// Where two unbroken chains have the same head and the store of one holds
/// everything that the store of the other holds, they have the same
/// headers: the head stands for the whole history.
pub proof fn lemma_same_head_same_headers(first: ChainModel, second: ChainModel)
    requires
        first.wf(),
        second.wf(),
        first.head == second.head,
        extends(first.store, second.store),
    ensures
        first.headers() == second.headers(),
{
    lemma_headers_linked(first);
    lemma_headers_linked(second);
    lemma_linked_extends(second.store, first.store, second.head, second.headers());
    lemma_headers(first, second.headers());
}

/// Two chains without a head have the same head, whatever their stores
/// hold: empty chains are equal.
pub proof fn lemma_empty_chains_equal(first: ChainModel, second: ChainModel)
    requires
        first.head is None,
        second.head is None,
    ensures
        first.head == second.head,
        first.walkable() && first.headers().len() == 0,
{
    let none = Seq::<HeaderView>::empty();
    assert(crate::chain::model::walkable(first.store, first.head, none));
    crate::chain::model::lemma_path(first, none);
}

/// Two chains with the same head no longer have the same head once one of
/// them has taken a push that the other has not.
pub proof fn lemma_push_makes_unequal(
    pushed: ChainModel,
    other: ChainModel,
    draft: EntryHeaderView,
    entry: EntryView,
)
    requires
        pushed.wf(),
        pushed.accepts(draft, entry),
        pushed.head == other.head,
    ensures
        pushed.push(draft, entry).head != other.head,
{
    lemma_headers_linked(pushed);
    let history = pushed.headers();
    if history.len() > 0 {
        lemma_no_self_link(pushed.store, pushed.head, history, history.len() - 1);
    }
}

/// Exporting a unbroken chain and importing the records into any store that
/// holds nothing but contents of the chain's own store, the empty store
/// among them, gives a unbroken chain with the very same headers, and so with
/// the same newest header and the same serialised headers.
pub proof fn lemma_export_import(chain: ChainModel, table: Map<Seq<char>, ContentView>)
    requires
        chain.wf(),
        extends(chain.store, table),
    ensures
        replay(ChainModel { store: table, head: None }, chain.records()) is Some,
        replay(ChainModel { store: table, head: None }, chain.records())->Some_0.wf(),
        replay(ChainModel { store: table, head: None }, chain.records())->Some_0.headers()
            == chain.headers(),
        replay(ChainModel { store: table, head: None }, chain.records())->Some_0.head
            == chain.head,
        replay(ChainModel { store: table, head: None }, chain.records())->Some_0.records()
            == chain.records(),
        replay(
            ChainModel { store: table, head: None },
            chain.records(),
        )->Some_0.headers().map_values(|h: HeaderView| h.content()) == chain.headers().map_values(
            |h: HeaderView| h.content(),
        ),
{
    let start = ChainModel { store: table, head: None };
    lemma_headers_linked(chain);
    lemma_export_import_prefix(chain, table, chain.headers().len() as int);
    assert(chain.records().take(chain.headers().len() as int) =~= chain.records());
    assert(chain.headers().take(chain.headers().len() as int) =~= chain.headers());
    let copy = replay(start, chain.records())->Some_0;
    lemma_headers_linked(copy);
    assert(copy.records() =~= chain.records()) by {
        assert forall|i: int| 0 <= i < chain.headers().len() implies copy.entry_of(i)
            == chain.entry_of(i) by {
            assert(anchored(copy.store, copy.headers(), i));
            assert(anchored(chain.store, chain.headers(), i));
        }
    }
}

/// The first `k` records of a unbroken chain replay, onto a store that holds
/// nothing but contents of the chain's store, to a unbroken chain with the
/// chain's first `k` headers and, again, nothing but contents of its store.
pub proof fn lemma_export_import_prefix(
    chain: ChainModel,
    table: Map<Seq<char>, ContentView>,
    k: int,
)
    requires
        chain.wf(),
        extends(chain.store, table),
        0 <= k <= chain.headers().len(),
    ensures
        replay(ChainModel { store: table, head: None }, chain.records().take(k)) is Some,
        replay(ChainModel { store: table, head: None }, chain.records().take(k))->Some_0.wf(),
        replay(
            ChainModel { store: table, head: None },
            chain.records().take(k),
        )->Some_0.headers() == chain.headers().take(k),
        extends(
            chain.store,
            replay(ChainModel { store: table, head: None }, chain.records().take(k))->Some_0.store,
        ),
    decreases k,
{
    let start = ChainModel { store: table, head: None };
    let history = chain.headers();
    lemma_headers_linked(chain);
    if k == 0 {
        let none = Seq::<HeaderView>::empty();
        assert(linked(start.store, start.head, none));
        lemma_headers(start, none);
        assert(history.take(0) =~= none);
        assert(content_addressed(table)) by {
            assert forall|a: Seq<char>| #[trigger] table.contains_key(a) implies table[a].address()
                == a by {
                assert(chain.store.contains_key(a));
            }
        }
    } else {
        lemma_export_import_prefix(chain, table, k - 1);
        let records = chain.records().take(k);
        assert(records.drop_last() =~= chain.records().take(k - 1));
        let before = replay(start, records.drop_last())->Some_0;
        let record = records.last();
        assert(anchored(chain.store, history, k - 1));
        assert(chain.store.contains_key(record.header.entry_address));
        assert(record.entry.address() == record.header.entry_address);
        assert(before.draft(draft_of(record.entry)) == record.header);
        assert(before.accepts(draft_of(record.entry), record.entry));
        lemma_push(before, draft_of(record.entry), record.entry);
        assert(history.take(k) =~= history.take(k - 1).push(record.header));
    }
}

} // verus!
