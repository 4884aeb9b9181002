//! Whole-chain export and import: the chain's headers, each with its entry,
//! as records and as JSON text.

use crate::cas::{admits_content, Content, ContentStore, ContentView};
use crate::chain::model::{
    admits_records, empty_over, lemma_headers_linked, lemma_replay, lemma_replay_fails, lemma_replay_over_table,
    replay, ChainModel, RecordView,
};
use crate::chain::{Chain, SourceChain};
use crate::entry::{Entry, EntryView};
use crate::error::HolochainError;
use crate::header::{ChainHeader, HeaderView};
use crate::address::Address;
use crate::chain::optional_header;
use crate::json::{json_views, parse_json, parsed_json, Json, JsonView};
use vstd::prelude::*;
use vstd::string::*;

verus! {

/// A header together with the entry it commits to, as a chain exports it.
#[derive(Debug, PartialEq, Eq)]
pub struct Record {
    pub header: ChainHeader,
    pub entry: Entry,
}

impl View for Record {
    type V = RecordView;

    open spec fn view(&self) -> RecordView {
        RecordView { header: self.header@, entry: self.entry@ }
    }
}

impl Clone for Record {
    fn clone(&self) -> (copy: Record)
        ensures
            copy == *self,
    {
        Record { header: self.header.clone(), entry: self.entry.clone() }
    }
}

/// The views of a sequence of records.
pub open spec fn record_views(records: Seq<Record>) -> Seq<RecordView> {
    records.map_values(|r: Record| r@)
}

/// The JSON object that stands for a record.
pub open spec fn record_json(record: RecordView) -> Seq<char> {
    "{\"header\":"@ + record.header.content() + ",\"entry\":"@ + record.entry.json() + "}"@
}

/// The JSON objects of `records`, in their order, with a comma between
/// every two.
pub open spec fn joined_records(records: Seq<RecordView>) -> Seq<char>
    decreases records.len(),
{
    if records.len() == 0 {
        Seq::empty()
    } else if records.len() == 1 {
        record_json(records[0])
    } else {
        joined_records(records.drop_last()) + ","@ + record_json(records.last())
    }
}

/// The JSON array that stands for `records`.
pub open spec fn records_json(records: Seq<RecordView>) -> Seq<char> {
    "["@ + joined_records(records) + "]"@
}

/// The JSON array that stands for `records`, in their order.
pub fn records_to_json(records: &Vec<Record>) -> (text: String)
    ensures
        text@ == records_json(record_views(records@)),
{
    let ghost views = record_views(records@);
    let mut text = String::new();
    text.append("[");
    let mut i: usize = 0;
    while i < records.len()
        invariant
            i <= records.len(),
            views == record_views(records@),
            text@ == "["@ + joined_records(views.take(i as int)),
        decreases records.len() - i,
    {
        if i > 0 {
            text.append(",");
        }
        text.append("{\"header\":");
        records[i].header.push_json(&mut text);
        text.append(",\"entry\":");
        records[i].entry.push_json(&mut text);
        text.append("}");
        proof {
            assert(views.take(i + 1).drop_last() =~= views.take(i as int));
            assert(views.take(i + 1).last() == records[i as int]@);
            assert(text@ =~= "["@ + joined_records(views.take(i + 1)));
        }
        i += 1;
    }
    proof {
        assert(views.take(i as int) =~= views);
    }
    text.append("]");
    text
}

/// The header that a JSON object stands for: its members `entry_type`,
/// `timestamp`, `entry_hash` and `entry_signature` are strings, its members
/// `link` and `link_same_type` strings, `null` or missing. Nothing for any
/// other value.
pub open spec fn header_of_json(json: JsonView) -> Option<HeaderView> {
    if json.member_text("entry_type"@) is Some && json.member_text("timestamp"@) is Some
        && json.member_optional_text("link"@) is Some && json.member_text("entry_hash"@) is Some
        && json.member_text("entry_signature"@) is Some && json.member_optional_text(
        "link_same_type"@,
    ) is Some {
        Some(
            HeaderView {
                entry_type: json.member_text("entry_type"@)->Some_0,
                timestamp: json.member_text("timestamp"@)->Some_0,
                link: json.member_optional_text("link"@)->Some_0,
                entry_address: json.member_text("entry_hash"@)->Some_0,
                entry_signature: json.member_text("entry_signature"@)->Some_0,
                link_same_type: json.member_optional_text("link_same_type"@)->Some_0,
            },
        )
    } else {
        None
    }
}

/// The entry that a JSON object stands for: its members `content` and
/// `entry_type` are strings. Nothing for any other value.
pub open spec fn entry_of_json(json: JsonView) -> Option<EntryView> {
    if json.member_text("content"@) is Some && json.member_text("entry_type"@) is Some {
        Some(
            EntryView {
                entry_type: json.member_text("entry_type"@)->Some_0,
                content: json.member_text("content"@)->Some_0,
            },
        )
    } else {
        None
    }
}

/// The record that a JSON object stands for: its member `header` stands for
/// a header and its member `entry` for an entry. Nothing for any other value.
pub open spec fn record_of_json(json: JsonView) -> Option<RecordView> {
    if json.member("header"@) is Some && header_of_json(json.member("header"@)->Some_0) is Some
        && json.member("entry"@) is Some && entry_of_json(json.member("entry"@)->Some_0)
        is Some {
        Some(
            RecordView {
                header: header_of_json(json.member("header"@)->Some_0)->Some_0,
                entry: entry_of_json(json.member("entry"@)->Some_0)->Some_0,
            },
        )
    } else {
        None
    }
}

/// The records that a JSON array stands for, in its order: every item
/// stands for a record. Nothing for any other value.
pub open spec fn records_of_json(json: JsonView) -> Option<Seq<RecordView>> {
    match json.items() {
        Some(items) => if forall|i: int|
            0 <= i < items.len() ==> (#[trigger] record_of_json(items[i])) is Some {
            Some(Seq::new(items.len(), |i: int| record_of_json(items[i])->Some_0))
        } else {
            None
        },
        None => None,
    }
}

/// The records that `text` stands for: it parses as JSON, to an array of
/// records. Nothing for any other text.
pub open spec fn records_of_text(text: Seq<char>) -> Option<Seq<RecordView>> {
    match parsed_json(text) {
        Some(json) => records_of_json(json),
        None => None,
    }
}

/// Whether `text` imports over a store that holds `table`: it decodes to
/// records, and the records replay onto an empty chain over that store.
pub open spec fn imports(table: Map<Seq<char>, ContentView>, text: Seq<char>) -> bool {
    records_of_text(text) is Some && replay(
        empty_over(table),
        records_of_text(text)->Some_0.reverse(),
    ) is Some
}

/// The view of an optional entry.
pub open spec fn optional_entry(entry: Option<Entry>) -> Option<EntryView> {
    match entry {
        Some(e) => Some(e@),
        None => None,
    }
}

/// The view of an optional record.
pub open spec fn optional_record(record: Option<Record>) -> Option<RecordView> {
    match record {
        Some(r) => Some(r@),
        None => None,
    }
}

/// The views of an optional sequence of records.
pub open spec fn optional_records(records: Option<Vec<Record>>) -> Option<Seq<RecordView>> {
    match records {
        Some(r) => Some(record_views(r@)),
        None => None,
    }
}

/// The address that an optional text stands for.
fn optional_address_from(text: Option<&str>) -> (address: Option<Address>)
    ensures
        address is Some <==> text is Some,
        address matches Some(a) ==> a@ == text->Some_0@,
{
    match text {
        Some(t) => Some(Address::from_text(t)),
        None => None,
    }
}

/// The header that a JSON object stands for, if it stands for one.
pub fn decode_header(json: &Json) -> (header: Option<ChainHeader>)
    ensures
        optional_header(header) == header_of_json(json@),
{
    let entry_type = match json.member_text("entry_type") {
        Some(t) => t,
        None => { return None; },
    };
    let timestamp = match json.member_text("timestamp") {
        Some(t) => t,
        None => { return None; },
    };
    let link = match json.member_optional_text("link") {
        Some(t) => optional_address_from(t),
        None => { return None; },
    };
    let entry_address = match json.member_text("entry_hash") {
        Some(t) => Address::from_text(t),
        None => { return None; },
    };
    let entry_signature = match json.member_text("entry_signature") {
        Some(t) => t,
        None => { return None; },
    };
    let link_same_type = match json.member_optional_text("link_same_type") {
        Some(t) => optional_address_from(t),
        None => { return None; },
    };
    Some(
        ChainHeader::new(
            entry_type,
            timestamp,
            link,
            &entry_address,
            entry_signature,
            link_same_type,
        ),
    )
}

/// The entry that a JSON object stands for, if it stands for one.
pub fn decode_entry(json: &Json) -> (entry: Option<Entry>)
    ensures
        optional_entry(entry) == entry_of_json(json@),
{
    let content = match json.member_text("content") {
        Some(t) => t,
        None => { return None; },
    };
    let entry_type = match json.member_text("entry_type") {
        Some(t) => t,
        None => { return None; },
    };
    Some(Entry::new(entry_type, content))
}

/// The record that a JSON object stands for, if it stands for one.
pub fn decode_record(json: &Json) -> (record: Option<Record>)
    ensures
        optional_record(record) == record_of_json(json@),
{
    let header = match json.member("header") {
        Some(h) => match decode_header(h) {
            Some(header) => header,
            None => { return None; },
        },
        None => { return None; },
    };
    let entry = match json.member("entry") {
        Some(e) => match decode_entry(e) {
            Some(entry) => entry,
            None => { return None; },
        },
        None => { return None; },
    };
    Some(Record { header, entry })
}

/// The records that a JSON array stands for, if every item stands for one.
pub fn decode_records(json: &Json) -> (records: Option<Vec<Record>>)
    ensures
        optional_records(records) == records_of_json(json@),
{
    let items = match json.items() {
        Some(items) => items,
        None => { return None; },
    };
    let ghost views = json_views(items@);
    let mut records: Vec<Record> = Vec::new();
    let mut i: usize = 0;
    while i < items.len()
        invariant
            i <= items.len(),
            records.len() == i,
            views == json_views(items@),
            json@.items() == Some(views),
            forall|j: int| 0 <= j < i ==> (#[trigger] record_of_json(views[j])) == Some(records[j]@),
        decreases items.len() - i,
    {
        match decode_record(&items[i]) {
            Some(record) => {
                records.push(record);
            },
            None => {
                assert(record_of_json(views[i as int]) is None);
                return None;
            },
        }
        i += 1;
    }
    assert(record_views(records@) =~= records_of_json(json@)->Some_0);
    Some(records)
}

/// The records that `text` stands for; a decode error where it is not the
/// JSON text of an array of records.
pub fn parse_records(text: &str) -> (records: Result<Vec<Record>, HolochainError>)
    ensures
        records is Ok <==> records_of_text(text@) is Some,
        records matches Ok(r) ==> Some(record_views(r@)) == records_of_text(text@),
        records is Err ==> records->Err_0 == HolochainError::DecodeError,
{
    match parse_json(text) {
        Some(json) => match decode_records(&json) {
            Some(records) => Ok(records),
            None => Err(HolochainError::DecodeError),
        },
        None => Err(HolochainError::DecodeError),
    }
}

impl Chain {
    /// The chain's headers, each with its entry, the newest first. The
    /// chain must be one that can be exported: a link that names no stored
    /// header, or a header whose entry is not stored, is fatal.
    pub fn records(&self) -> (records: Vec<Record>)
        requires
            self@.exportable(),
        ensures
            record_views(records@) == self@.records().reverse(),
    {
        let ghost all = self@.headers();
        let mut walk = self.iter();
        let mut records: Vec<Record> = Vec::new();
        loop
            invariant
                all == self@.headers(),
                self@.exportable(),
                walk.store() == self@.store,
                records.len() + walk.rest().len() == all.len(),
                walk.rest() == all.take(walk.rest().len() as int),
                forall|j: int|
                    0 <= j < records.len() ==> (#[trigger] records[j])@ == self@.records()[all.len()
                        - 1 - j],
            ensures
                records.len() == all.len(),
                forall|j: int|
                    0 <= j < records.len() ==> (#[trigger] records[j])@ == self@.records()[all.len()
                        - 1 - j],
            decreases walk.rest().len(),
        {
            let ghost before = walk.rest();
            match walk.next() {
                None => {
                    break ;
                },
                Some(header) => {
                    proof {
                        assert(before.drop_last() =~= all.take(before.len() - 1));
                        assert(header@ == all[before.len() - 1]);
                    }
                    let entry = match self.table().get(&header.entry_address()) {
                        Some(Content::Entry(e)) => e.clone(),
                        _ => {
                            proof {
                                assert(false);
                            }
                            Entry::new("", "")
                        },
                    };
                    records.push(Record { header, entry });
                },
            }
        }
        assert(record_views(records@) =~= self@.records().reverse());
        records
    }

    /// The whole chain as JSON text: an array of its headers, each with its
    /// entry, the newest first. The chain must be one that can be exported.
    pub fn to_json(&self) -> (text: Result<String, HolochainError>)
        requires
            self@.exportable(),
        ensures
            text is Ok,
            text->Ok_0@ == records_json(self@.records().reverse()),
    {
        let records = self.records();
        Ok(records_to_json(&records))
    }

    /// The chain that pushing the entries of `records` onto an empty chain
    /// over `table` gives, the last record first. Every push must be
    /// accepted and must give the very header that its record holds;
    /// otherwise the import fails with a consistency error.
    pub fn import_records(table: ContentStore, records: &Vec<Record>) -> (chain: Result<
        Chain,
        HolochainError,
    >)
        ensures
            chain is Ok <==> replay(
                ChainModel { store: table@, head: None },
                record_views(records@).reverse(),
            ) is Some,
            chain is Ok ==> chain->Ok_0@.wf() && chain->Ok_0.known_unbroken() && Some(
                chain->Ok_0@,
            ) == replay(
                ChainModel { store: table@, head: None },
                record_views(records@).reverse(),
            ) && chain->Ok_0@.headers() == record_views(records@).reverse().map_values(
                |r: RecordView| r.header,
            ),
            chain is Err ==> chain->Err_0 == HolochainError::ChainConsistencyError,
    {
        let ghost start = ChainModel { store: table@, head: None };
        let ghost oldest_first = record_views(records@).reverse();
        let mut chain = Chain::new(table);
        let mut left: usize = records.len();
        proof {
            assert(oldest_first.take(0) =~= Seq::<RecordView>::empty());
        }
        while left > 0
            invariant
                left <= records.len(),
                oldest_first == record_views(records@).reverse(),
                start == (ChainModel { store: table@, head: None }),
                start.wf(),
                chain@.wf(),
                chain.known_unbroken(),
                replay(start, oldest_first.take(records.len() - left)) == Some(chain@),
            decreases left,
        {
            left -= 1;
            let record = &records[left];
            let ghost k = records.len() - left - 1;
            proof {
                assert(oldest_first.take(k + 1).drop_last() =~= oldest_first.take(k));
                assert(oldest_first.take(k + 1).last() == record@);
            }
            let draft = record.entry.header();
            proof {
                lemma_headers_linked(chain@);
            }
            let rebuilt = chain.create_next_chain_header(&draft);
            if !(rebuilt == record.header) {
                proof {
                    assert(replay(start, oldest_first.take(k + 1)) is None);
                    lemma_replay_fails(start, oldest_first, k + 1);
                }
                return Err(HolochainError::ChainConsistencyError);
            }
            match chain.push_entry(&draft, &record.entry) {
                Ok(_) => {},
                Err(_) => {
                    proof {
                        assert(replay(start, oldest_first.take(k + 1)) is None);
                        lemma_replay_fails(start, oldest_first, k + 1);
                    }
                    return Err(HolochainError::ChainConsistencyError);
                },
            }
        }
        proof {
            assert(oldest_first.take(records.len() as int) =~= oldest_first);
            lemma_replay(start, oldest_first);
            assert(start.headers() + oldest_first.map_values(|r: RecordView| r.header)
                =~= oldest_first.map_values(|r: RecordView| r.header));
        }
        Ok(chain)
    }

    /// Whether the records replay onto an empty chain over `table`, the
    /// last record first: every push is accepted and gives the very header
    /// that its record holds. The table is only read.
    pub fn replays(table: &ContentStore, records: &Vec<Record>) -> (accepted: bool)
        ensures
            accepted == (replay(empty_over(table@), record_views(records@).reverse()) is Some),
    {
        let ghost oldest_first = record_views(records@).reverse();
        proof {
            use_type_invariant(table);
            lemma_replay_over_table(table@, oldest_first);
        }
        if Chain::import_records(ContentStore::new(), records).is_err() {
            return false;
        }
        let mut i: usize = 0;
        while i < records.len()
            invariant
                i <= records.len(),
                oldest_first == record_views(records@).reverse(),
                replay(empty_over(table@), oldest_first) is Some <==> admits_records(
                    table@,
                    oldest_first,
                ),
                forall|j: int|
                    0 <= j < i ==> admits_content(
                        table@,
                        ContentView::Entry((#[trigger] records[j])@.entry),
                    ) && admits_content(table@, ContentView::Header(records[j]@.header)),
            decreases records.len() - i,
        {
            let entry = Content::Entry(records[i].entry.clone());
            let header = Content::Header(records[i].header.clone());
            if !table.admits(&entry) || !table.admits(&header) {
                proof {
                    let k = records.len() - 1 - i;
                    assert(oldest_first[k] == records[i as int]@);
                }
                return false;
            }
            i += 1;
        }
        proof {
            assert forall|k: int| 0 <= k < oldest_first.len() implies admits_content(
                table@,
                ContentView::Entry((#[trigger] oldest_first[k]).entry),
            ) && admits_content(table@, ContentView::Header(oldest_first[k].header)) by {
                assert(oldest_first[k] == records[records.len() - 1 - k]@);
            }
        }
        true
    }

    /// The chain that the JSON text `s` of an exported chain stands for,
    /// rebuilt over `table`: the text is decoded to records, and their
    /// entries are pushed onto an empty chain, the last record first. The
    /// text must be one that imports: text that does not decode, or whose
    /// records do not replay, is fatal.
    pub fn import_from_json(table: ContentStore, s: &str) -> (chain: Chain)
        requires
            imports(table@, s@),
        ensures
            Some(chain@) == replay(empty_over(table@), records_of_text(s@)->Some_0.reverse()),
            chain@.wf(),
            chain@.walkable(),
            chain@.exportable(),
            chain.known_unbroken(),
            chain@.headers() == records_of_text(s@)->Some_0.reverse().map_values(
                |r: RecordView| r.header,
            ),
    {
        match parse_records(s) {
            Ok(records) => match Chain::import_records(table, &records) {
                Ok(chain) => {
                    proof {
                        lemma_headers_linked(chain@);
                    }
                    chain
                },
                Err(_) => {
                    proof {
                        assert(false);
                    }
                    Chain::new(ContentStore::new())
                },
            },
            Err(_) => {
                proof {
                    assert(false);
                }
                Chain::new(table)
            },
        }
    }

    /// Imports the JSON text `s` over `table` where it is one that
    /// imports, and says why where it is not: a decode error where the text
    /// is not that of an array of records, a consistency error where a
    /// push is refused or gives another header than the one in its record.
    pub fn try_import_from_json(table: ContentStore, s: &str) -> (chain: Result<
        Chain,
        HolochainError,
    >)
        ensures
            chain is Ok <==> imports(table@, s@),
            chain is Ok ==> Some(chain->Ok_0@) == replay(
                empty_over(table@),
                records_of_text(s@)->Some_0.reverse(),
            ) && chain->Ok_0@.wf() && chain->Ok_0.known_unbroken() && chain->Ok_0@.headers()
                == records_of_text(s@)->Some_0.reverse().map_values(|r: RecordView| r.header),
            chain is Err ==> chain->Err_0 == (if records_of_text(s@) is Some {
                HolochainError::ChainConsistencyError
            } else {
                HolochainError::DecodeError
            }),
    {
        match parse_records(s) {
            Ok(records) => if Chain::replays(&table, &records) {
                Ok(Chain::import_from_json(table, s))
            } else {
                Err(HolochainError::ChainConsistencyError)
            },
            Err(e) => Err(e),
        }
    }
}

} // verus!
