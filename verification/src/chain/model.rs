//! The mathematical model of a source chain: a store of contents, the head
//! header, and the headers that the head links back to.

use crate::cas::{admits_content, content_addressed, extends, ContentView};
use crate::entry::{EntryHeaderView, EntryView};
use crate::header::HeaderView;
use vstd::prelude::*;

verus! {

/// The most recent header of `history` (written oldest first) whose entry
/// type is `entry_type`, if there is one.
pub open spec fn latest_of_type(history: Seq<HeaderView>, entry_type: Seq<char>) -> Option<
    HeaderView,
>
    decreases history.len(),
{
    if history.len() == 0 {
        None
    } else if history.last().entry_type == entry_type {
        Some(history.last())
    } else {
        latest_of_type(history.drop_last(), entry_type)
    }
}

/// The address of an optional header.
pub open spec fn optional_address(header: Option<HeaderView>) -> Option<Seq<char>> {
    match header {
        Some(h) => Some(h.address()),
        None => None,
    }
}

/// The address of the newest header of `history`, if there is one.
pub open spec fn top_address(history: Seq<HeaderView>) -> Option<Seq<char>> {
    if history.len() == 0 {
        None
    } else {
        Some(history.last().address())
    }
}

/// The header that commits an entry of the given type and address on top of
/// `history`. Time stamp and signature are placeholders and stay empty.
pub open spec fn next_header(
    history: Seq<HeaderView>,
    entry_type: Seq<char>,
    entry_address: Seq<char>,
) -> HeaderView {
    HeaderView {
        entry_type,
        timestamp: Seq::empty(),
        link: top_address(history),
        entry_address,
        entry_signature: Seq::empty(),
        link_same_type: optional_address(latest_of_type(history, entry_type)),
    }
}

/// Whether `store` holds header `i` of `history` and its entry, and the
/// header is the one that a push on top of the headers before it gives.
pub open spec fn anchored(
    store: Map<Seq<char>, ContentView>,
    history: Seq<HeaderView>,
    i: int,
) -> bool {
    let h = history[i];
    &&& store.contains_key(h.address())
    &&& store[h.address()] == ContentView::Header(h)
    &&& store.contains_key(h.entry_address)
    &&& store[h.entry_address] is Entry
    &&& store[h.entry_address]->Entry_0.entry_type == h.entry_type
    &&& h == next_header(history.take(i), h.entry_type, h.entry_address)
}

/// The newest header of `history`, if there is one.
pub open spec fn top_of(history: Seq<HeaderView>) -> Option<HeaderView> {
    if history.len() == 0 {
        None
    } else {
        Some(history.last())
    }
}

/// Whether `history`, written oldest first, is a chain in `store` that ends
/// with `head`, every header and entry of it stored and every header the
/// one that a push gives.
pub open spec fn linked(
    store: Map<Seq<char>, ContentView>,
    head: Option<HeaderView>,
    history: Seq<HeaderView>,
) -> bool {
    &&& head == top_of(history)
    &&& forall|i: int| 0 <= i < history.len() ==> #[trigger] anchored(store, history, i)
}

/// Whether header `i` of `headers` leads on to the header before it: the
/// oldest header has no link, and every other links to an address under
/// which `store` holds the header before it.
pub open spec fn step(store: Map<Seq<char>, ContentView>, headers: Seq<HeaderView>, i: int) -> bool {
    match headers[i].link {
        None => i == 0,
        Some(a) => i > 0 && store.contains_key(a) && store[a] == ContentView::Header(
            headers[i - 1],
        ),
    }
}

/// Whether `headers`, written oldest first, is the path that a walk from
/// `start` takes through `store`: it ends with `start`, and from every
/// header a step leads on until a header without link is reached. An absent
/// `start` has the empty path.
pub open spec fn walkable(
    store: Map<Seq<char>, ContentView>,
    start: Option<HeaderView>,
    headers: Seq<HeaderView>,
) -> bool {
    &&& start == top_of(headers)
    &&& forall|i: int| 0 <= i < headers.len() ==> #[trigger] step(store, headers, i)
}

/// A header together with the entry it commits to.
pub struct RecordView {
    pub header: HeaderView,
    pub entry: EntryView,
}

/// The draft that announces `entry`.
pub open spec fn draft_of(entry: EntryView) -> EntryHeaderView {
    EntryHeaderView { entry_type: entry.entry_type, entry_address: entry.address() }
}

/// A source chain: the contents of its store and its head, the newest
/// header.
pub struct ChainModel {
    pub store: Map<Seq<char>, ContentView>,
    pub head: Option<HeaderView>,
}

impl ChainModel {
    /// Whether the chain can be walked: from the head a path leads back,
    /// link by link through the store, to a header without link.
    pub open spec fn walkable(self) -> bool {
        exists|headers: Seq<HeaderView>| walkable(self.store, self.head, headers)
    }

    /// The chain's headers, oldest first: the path that a walk from the
    /// head takes.
    pub open spec fn headers(self) -> Seq<HeaderView> {
        choose|headers: Seq<HeaderView>| walkable(self.store, self.head, headers)
    }

    /// Whether the chain is unbroken: the store is content-addressed, it
    /// holds every header of the chain and every entry that one of them
    /// commits to, and every header is the one that a push on top of the
    /// headers before it gives.
    pub open spec fn wf(self) -> bool {
        &&& content_addressed(self.store)
        &&& exists|history: Seq<HeaderView>| linked(self.store, self.head, history)
    }

    /// Whether the chain can be exported: it can be walked, and the store
    /// holds an entry under the entry address of every header.
    pub open spec fn exportable(self) -> bool {
        &&& self.walkable()
        &&& forall|i: int|
            0 <= i < self.headers().len() ==> self.store.contains_key(
                (#[trigger] self.headers()[i]).entry_address,
            ) && self.store[self.headers()[i].entry_address] is Entry
    }

    /// The newest header, if the chain has one.
    pub open spec fn top(self) -> Option<HeaderView> {
        self.head
    }

    /// The newest header of the given entry type, if the chain has one.
    pub open spec fn top_of_type(self, entry_type: Seq<char>) -> Option<HeaderView> {
        latest_of_type(self.headers(), entry_type)
    }

    /// The header that the next push with `draft` gives.
    pub open spec fn draft(self, draft: EntryHeaderView) -> HeaderView {
        next_header(self.headers(), draft.entry_type, draft.entry_address)
    }

    /// Whether a push of `entry`, announced by `draft`, is accepted: the
    /// draft describes the entry, and neither the entry nor its header
    /// would replace a different content in the store.
    pub open spec fn accepts(self, draft: EntryHeaderView, entry: EntryView) -> bool {
        &&& draft == draft_of(entry)
        &&& admits_content(self.store, ContentView::Entry(entry))
        &&& admits_content(
            self.store.insert(entry.address(), ContentView::Entry(entry)),
            ContentView::Header(self.draft(draft)),
        )
    }

    /// The chain after an accepted push of `entry`, announced by `draft`.
    pub open spec fn push(self, draft: EntryHeaderView, entry: EntryView) -> ChainModel {
        let header = self.draft(draft);
        ChainModel {
            store: self.store.insert(entry.address(), ContentView::Entry(entry)).insert(
                header.address(),
                ContentView::Header(header),
            ),
            head: Some(header),
        }
    }

    /// The entry stored under `address`, if the store holds an entry there.
    pub open spec fn entry(self, address: Seq<char>) -> Option<EntryView> {
        if self.store.contains_key(address) && self.store[address] is Entry {
            Some(self.store[address]->Entry_0)
        } else {
            None
        }
    }

    /// The entry that header `i` commits to, as the store holds it.
    pub open spec fn entry_of(self, i: int) -> EntryView {
        self.store[self.headers()[i].entry_address]->Entry_0
    }

    /// The chain's headers, each with its entry, oldest first.
    pub open spec fn records(self) -> Seq<RecordView> {
        Seq::new(
            self.headers().len(),
            |i: int| RecordView { header: self.headers()[i], entry: self.entry_of(i) },
        )
    }
}

/// An unbroken history is the path that a walk from its newest header
/// takes.
pub proof fn lemma_linked_walkable(
    store: Map<Seq<char>, ContentView>,
    head: Option<HeaderView>,
    history: Seq<HeaderView>,
)
    requires
        linked(store, head, history),
    ensures
        walkable(store, head, history),
{
    assert forall|i: int| 0 <= i < history.len() implies #[trigger] step(store, history, i) by {
        assert(anchored(store, history, i));
        if i > 0 {
            assert(anchored(store, history, i - 1));
            assert(history.take(i).last() == history[i - 1]);
        }
    }
}

/// The first `k` headers of a path are the path from the newest of them.
pub proof fn lemma_walkable_take(
    store: Map<Seq<char>, ContentView>,
    start: Option<HeaderView>,
    headers: Seq<HeaderView>,
    k: int,
)
    requires
        walkable(store, start, headers),
        0 <= k <= headers.len(),
    ensures
        walkable(store, top_of(headers.take(k)), headers.take(k)),
{
    let first = headers.take(k);
    assert forall|i: int| 0 <= i < first.len() implies #[trigger] step(store, first, i) by {
        assert(step(store, headers, i));
    }
}

/// A store and a start header have at most one path.
pub proof fn lemma_walkable_unique(
    store: Map<Seq<char>, ContentView>,
    start: Option<HeaderView>,
    first: Seq<HeaderView>,
    second: Seq<HeaderView>,
)
    requires
        walkable(store, start, first),
        walkable(store, start, second),
    ensures
        first == second,
    decreases first.len(),
{
    if first.len() == 0 || second.len() == 0 {
        assert(first =~= second);
    } else {
        let m = first.len() - 1;
        let n = second.len() - 1;
        assert(step(store, first, m));
        assert(step(store, second, n));
        lemma_walkable_take(store, start, first, m);
        lemma_walkable_take(store, start, second, n);
        assert(top_of(first.take(m)) == top_of(second.take(n))) by {
            if m > 0 {
                assert(first.take(m).last() == first[m - 1]);
            }
            if n > 0 {
                assert(second.take(n).last() == second[n - 1]);
            }
        }
        lemma_walkable_unique(store, top_of(first.take(m)), first.take(m), second.take(n));
        assert(first =~= first.take(m).push(first.last()));
        assert(second =~= second.take(n).push(second.last()));
    }
}

/// A history stays unbroken when the store gains contents and loses none.
pub proof fn lemma_linked_extends(
    store: Map<Seq<char>, ContentView>,
    later: Map<Seq<char>, ContentView>,
    head: Option<HeaderView>,
    history: Seq<HeaderView>,
)
    requires
        linked(store, head, history),
        extends(later, store),
    ensures
        linked(later, head, history),
{
    assert forall|i: int| 0 <= i < history.len() implies #[trigger] anchored(later, history, i) by {
        assert(anchored(store, history, i));
    }
}

/// Any path from the head of a chain is the chain's headers.
pub proof fn lemma_path(chain: ChainModel, headers: Seq<HeaderView>)
    requires
        walkable(chain.store, chain.head, headers),
    ensures
        chain.walkable(),
        chain.headers() == headers,
{
    lemma_walkable_unique(chain.store, chain.head, chain.headers(), headers);
}

/// Any unbroken history of a chain is the chain's headers.
pub proof fn lemma_headers(chain: ChainModel, history: Seq<HeaderView>)
    requires
        linked(chain.store, chain.head, history),
    ensures
        chain.walkable(),
        chain.headers() == history,
{
    lemma_linked_walkable(chain.store, chain.head, history);
    lemma_path(chain, history);
}

/// An unbroken chain can be walked and exported, and its headers are an
/// unbroken history.
pub proof fn lemma_headers_linked(chain: ChainModel)
    requires
        chain.wf(),
    ensures
        chain.walkable(),
        chain.exportable(),
        linked(chain.store, chain.head, chain.headers()),
        walkable(chain.store, chain.head, chain.headers()),
        chain.head == top_of(chain.headers()),
{
    let history = choose|history: Seq<HeaderView>| linked(chain.store, chain.head, history);
    lemma_headers(chain, history);
    assert forall|i: int| 0 <= i < history.len() implies chain.store.contains_key(
        (#[trigger] history[i]).entry_address,
    ) && chain.store[history[i].entry_address] is Entry by {
        assert(anchored(chain.store, history, i));
    }
}

/// The headers of a chain that can be walked are its path.
pub proof fn lemma_headers_walkable(chain: ChainModel)
    requires
        chain.walkable(),
    ensures
        walkable(chain.store, chain.head, chain.headers()),
        chain.head == top_of(chain.headers()),
{
}

/// An accepted push keeps an unbroken chain unbroken, keeps every stored
/// content, and appends exactly the drafted header to the chain's headers.
pub proof fn lemma_push(chain: ChainModel, draft: EntryHeaderView, entry: EntryView)
    requires
        chain.wf(),
        chain.accepts(draft, entry),
    ensures
        chain.push(draft, entry).wf(),
        chain.push(draft, entry).headers() == chain.headers().push(chain.draft(draft)),
        chain.push(draft, entry).top() == Some(chain.draft(draft)),
        extends(chain.push(draft, entry).store, chain.store),
{
    lemma_headers_linked(chain);
    let history = chain.headers();
    let header = chain.draft(draft);
    let with_entry = chain.store.insert(entry.address(), ContentView::Entry(entry));
    let after = chain.push(draft, entry);
    let longer = history.push(header);
    assert(extends(with_entry, chain.store));
    assert(extends(after.store, with_entry));
    assert(extends(after.store, chain.store));
    assert(content_addressed(after.store));
    lemma_linked_extends(chain.store, after.store, chain.head, history);
    assert(longer.take(history.len() as int) =~= history);
    assert forall|i: int| 0 <= i < longer.len() implies #[trigger] anchored(
        after.store,
        longer,
        i,
    ) by {
        if i < history.len() {
            assert(anchored(after.store, history, i));
            assert(longer.take(i) =~= history.take(i));
        }
    }
    assert(linked(after.store, after.head, longer));
    lemma_headers(after, longer);
}

/// The chain that pushing the entries of `records`, oldest first, onto
/// `chain` gives, provided that every push is accepted and gives the very
/// header that its record holds; nothing otherwise.
pub open spec fn replay(chain: ChainModel, records: Seq<RecordView>) -> Option<ChainModel>
    decreases records.len(),
{
    if records.len() == 0 {
        Some(chain)
    } else {
        match replay(chain, records.drop_last()) {
            None => None,
            Some(before) => {
                let record = records.last();
                if before.accepts(draft_of(record.entry), record.entry) && before.draft(
                    draft_of(record.entry),
                ) == record.header {
                    Some(before.push(draft_of(record.entry), record.entry))
                } else {
                    None
                }
            },
        }
    }
}

/// A replay that fails on the first `k` records fails on all of them.
pub proof fn lemma_replay_fails(chain: ChainModel, records: Seq<RecordView>, k: int)
    requires
        0 <= k <= records.len(),
        replay(chain, records.take(k)) is None,
    ensures
        replay(chain, records) is None,
    decreases records.len() - k,
{
    if k < records.len() {
        assert(records.take(k + 1).drop_last() =~= records.take(k));
        lemma_replay_fails(chain, records, k + 1);
    } else {
        assert(records.take(k) =~= records);
    }
}

/// A replay onto a valid chain gives a valid chain whose headers are those
/// of the chain followed by those of the records, and which keeps every
/// stored content.
pub proof fn lemma_replay(chain: ChainModel, records: Seq<RecordView>)
    requires
        chain.wf(),
        replay(chain, records) is Some,
    ensures
        replay(chain, records)->Some_0.wf(),
        replay(chain, records)->Some_0.headers() == chain.headers() + records.map_values(
            |r: RecordView| r.header,
        ),
        extends(replay(chain, records)->Some_0.store, chain.store),
    decreases records.len(),
{
    let headers = records.map_values(|r: RecordView| r.header);
    if records.len() == 0 {
        assert(chain.headers() + headers =~= chain.headers());
    } else {
        let before = replay(chain, records.drop_last())->Some_0;
        let record = records.last();
        lemma_replay(chain, records.drop_last());
        lemma_push(before, draft_of(record.entry), record.entry);
        assert(chain.headers() + headers =~= (chain.headers() + records.drop_last().map_values(
            |r: RecordView| r.header,
        )).push(record.header));
    }
}

/// The empty chain over the store `table`.
pub open spec fn empty_over(table: Map<Seq<char>, ContentView>) -> ChainModel {
    ChainModel { store: table, head: None }
}

/// Whether two stores hold the same content wherever both hold one.
pub open spec fn agree(
    first: Map<Seq<char>, ContentView>,
    second: Map<Seq<char>, ContentView>,
) -> bool {
    forall|a: Seq<char>|
        first.contains_key(a) && #[trigger] second.contains_key(a) ==> first[a] == second[a]
}

/// Whether `table` admits the entry and the header of every record: none
/// of them would replace a different content.
pub open spec fn admits_records(
    table: Map<Seq<char>, ContentView>,
    records: Seq<RecordView>,
) -> bool {
    forall|k: int|
        0 <= k < records.len() ==> admits_content(
            table,
            ContentView::Entry((#[trigger] records[k]).entry),
        ) && admits_content(table, ContentView::Header(records[k].header))
}

/// Records replay onto a store exactly where they replay onto the empty
/// store and the store admits every entry and header of them. The chain
/// that comes out then has the same head and headers either way, and its
/// store is the given store together with what the replay put.
pub proof fn lemma_replay_over_table(
    table: Map<Seq<char>, ContentView>,
    records: Seq<RecordView>,
)
    requires
        content_addressed(table),
    ensures
        replay(empty_over(table), records) is Some <==> replay(
            empty_over(Map::empty()),
            records,
        ) is Some && admits_records(table, records),
        replay(empty_over(table), records) is Some ==> {
            let with = replay(empty_over(table), records)->Some_0;
            let without = replay(empty_over(Map::empty()), records)->Some_0;
            &&& with.store == table.union_prefer_right(without.store)
            &&& agree(table, without.store)
            &&& with.head == without.head
            &&& with.headers() == without.headers()
            &&& with.wf()
            &&& without.wf()
        },
    decreases records.len(),
{
    let none = Seq::<HeaderView>::empty();
    let start = empty_over(table);
    let bare = empty_over(Map::empty());
    if records.len() == 0 {
        assert(linked(start.store, start.head, none));
        assert(linked(bare.store, bare.head, none));
        lemma_headers(start, none);
        lemma_headers(bare, none);
        assert(start.store =~= table.union_prefer_right(bare.store));
    } else {
        let fewer = records.drop_last();
        let record = records.last();
        let draft = draft_of(record.entry);
        let entry = ContentView::Entry(record.entry);
        let header = ContentView::Header(record.header);
        lemma_replay_over_table(table, fewer);
        assert(admits_records(table, records) <==> admits_records(table, fewer) && admits_content(
            table,
            entry,
        ) && admits_content(table, header)) by {
            if admits_records(table, records) {
                assert forall|k: int| 0 <= k < fewer.len() implies admits_content(
                    table,
                    ContentView::Entry((#[trigger] fewer[k]).entry),
                ) && admits_content(table, ContentView::Header(fewer[k].header)) by {
                    assert(fewer[k] == records[k]);
                }
                assert(records[records.len() - 1] == record);
            }
            if admits_records(table, fewer) && admits_content(table, entry) && admits_content(
                table,
                header,
            ) {
                assert forall|k: int| 0 <= k < records.len() implies admits_content(
                    table,
                    ContentView::Entry((#[trigger] records[k]).entry),
                ) && admits_content(table, ContentView::Header(records[k].header)) by {
                    if k < fewer.len() {
                        assert(fewer[k] == records[k]);
                    }
                }
            }
        }
        if replay(start, fewer) is Some {
            let with = replay(start, fewer)->Some_0;
            let without = replay(bare, fewer)->Some_0;
            assert(with.draft(draft) == without.draft(draft));
            let with_entry = with.store.insert(record.entry.address(), entry);
            let without_entry = without.store.insert(record.entry.address(), entry);
            if with.draft(draft) == record.header {
                assert(with.accepts(draft, record.entry) <==> without.accepts(
                    draft,
                    record.entry,
                ) && admits_content(table, entry) && admits_content(table, header)) by {
                    assert(with_entry =~= table.union_prefer_right(without_entry));
                }
                if with.accepts(draft, record.entry) {
                    lemma_push(with, draft, record.entry);
                    lemma_push(without, draft, record.entry);
                    let after = with.push(draft, record.entry);
                    let bare_after = without.push(draft, record.entry);
                    assert(after.store =~= table.union_prefer_right(bare_after.store));
                    assert(agree(table, bare_after.store));
                }
            }
        }
    }
}

} // verus!
