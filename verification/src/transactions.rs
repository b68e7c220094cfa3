//! The table of requests in flight: under each transaction id, the sink that
//! waits for the response.

use vstd::prelude::*;

use crate::wire::same_bytes;

verus! {

/// A request in flight.
struct Transaction<S> {
    transaction_id: Vec<u8>,
    sink: S,
}

/// The sinks of the requests in flight, each under its transaction id. No
/// transaction id is held twice.
pub struct TransactionTable<S> {
    entries: Vec<Transaction<S>>,
}

/// The place of `transaction_id` among `entries`, if it has one.
spec fn holds_at<S>(entries: Seq<Transaction<S>>, transaction_id: Seq<u8>, at: int) -> bool {
    0 <= at < entries.len() && entries[at].transaction_id@ == transaction_id
}

/// Whether no transaction id occurs twice.
spec fn distinct<S>(entries: Seq<Transaction<S>>) -> bool {
    forall|i: int, j: int|
        0 <= i < j < entries.len() ==> entries[i].transaction_id@ != entries[j].transaction_id@
}

/// The sink under each transaction id.
spec fn table_of<S>(entries: Seq<Transaction<S>>) -> Map<Seq<u8>, S> {
    Map::new(
        |id: Seq<u8>| exists|at: int| holds_at(entries, id, at),
        |id: Seq<u8>| entries[choose|at: int| holds_at(entries, id, at)].sink,
    )
}

/// Whether `sinks` are the sinks of `table`, each once, in the order in
/// which `ids` names their transactions.
pub open spec fn is_listing_in_order<S>(
    sinks: Seq<S>,
    table: Map<Seq<u8>, S>,
    ids: Seq<Seq<u8>>,
) -> bool {
    &&& ids.no_duplicates()
    &&& ids.to_set() == table.dom()
    &&& ids.len() == sinks.len()
    &&& forall|i: int| 0 <= i < ids.len() ==> sinks[i] == table[#[trigger] ids[i]]
}

/// Whether `sinks` are the sinks of `table`, each once, in some order.
pub open spec fn is_listing_of<S>(sinks: Seq<S>, table: Map<Seq<u8>, S>) -> bool {
    exists|ids: Seq<Seq<u8>>| #[trigger] is_listing_in_order(sinks, table, ids)
}

/// Where no transaction id occurs twice, the entry with a transaction id is
/// the one that the table shows.
proof fn lemma_table_of<S>(entries: Seq<Transaction<S>>, at: int)
    requires
        distinct(entries),
        0 <= at < entries.len(),
    ensures
        table_of(entries).contains_key(entries[at].transaction_id@),
        table_of(entries)[entries[at].transaction_id@] == entries[at].sink,
{
    let id = entries[at].transaction_id@;
    assert(holds_at(entries, id, at));
    let chosen = choose|i: int| holds_at(entries, id, i);
    assert(chosen == at);
}

/// A table holds as many transactions as it has entries.
proof fn lemma_table_len<S>(entries: Seq<Transaction<S>>)
    requires
        distinct(entries),
    ensures
        table_of(entries).dom().finite(),
        table_of(entries).dom().len() == entries.len(),
    decreases entries.len(),
{
    if entries.len() == 0 {
        assert(table_of(entries).dom() =~= Set::empty());
    } else {
        let before = entries.drop_last();
        let id = entries.last().transaction_id@;
        lemma_table_len(before);
        assert(distinct(before));
        assert(!table_of(before).dom().contains(id)) by {
            if table_of(before).dom().contains(id) {
                let at = choose|at: int| holds_at(before, id, at);
                assert(entries[at].transaction_id@ == entries[entries.len() - 1].transaction_id@);
            }
        }
        assert(table_of(entries).dom() =~= table_of(before).dom().insert(id)) by {
            assert forall|other: Seq<u8>| table_of(entries).dom().contains(other) implies table_of(
                before,
            ).dom().insert(id).contains(other) by {
                let at = choose|at: int| holds_at(entries, other, at);
                if at < before.len() {
                    assert(holds_at(before, other, at));
                }
            }
            assert forall|other: Seq<u8>|
                table_of(before).dom().insert(id).contains(other) implies table_of(
                entries,
            ).dom().contains(other) by {
                if other == id {
                    assert(holds_at(entries, other, entries.len() - 1));
                } else {
                    let at = choose|at: int| holds_at(before, other, at);
                    assert(holds_at(entries, other, at));
                }
            }
        }
    }
}

/// One more entry under a transaction id that is not held yet is one more
/// sink in the table.
proof fn lemma_table_of_push<S>(entries: Seq<Transaction<S>>, entry: Transaction<S>)
    requires
        distinct(entries),
        !table_of(entries).contains_key(entry.transaction_id@),
    ensures
        distinct(entries.push(entry)),
        table_of(entries.push(entry)) == table_of(entries).insert(
            entry.transaction_id@,
            entry.sink,
        ),
{
    let id = entry.transaction_id@;
    let longer = entries.push(entry);
    let target = table_of(entries).insert(id, entry.sink);
    assert forall|i: int, j: int| 0 <= i < j < longer.len() implies longer[i].transaction_id@
        != longer[j].transaction_id@ by {
        if j == entries.len() {
            assert(!holds_at(entries, id, i));
        }
    }
    lemma_table_of(longer, entries.len() as int);
    assert forall|other: Seq<u8>| #[trigger]
        table_of(longer).dom().contains(other) <==> target.dom().contains(other) by {
        if table_of(longer).dom().contains(other) && other != id {
            let at = choose|at: int| holds_at(longer, other, at);
            assert(holds_at(entries, other, at));
        }
        if target.dom().contains(other) && other != id {
            let at = choose|at: int| holds_at(entries, other, at);
            assert(holds_at(longer, other, at));
        }
    }
    assert forall|other: Seq<u8>| #[trigger]
        table_of(longer).dom().contains(other) implies table_of(longer)[other]
        == target[other] by {
        if other != id {
            let at = choose|at: int| holds_at(longer, other, at);
            assert(holds_at(entries, other, at));
            lemma_table_of(longer, at);
            lemma_table_of(entries, at);
        }
    }
    assert(table_of(longer) =~= target);
}

/// One entry less is one sink less in the table.
proof fn lemma_table_of_remove<S>(entries: Seq<Transaction<S>>, at: int)
    requires
        distinct(entries),
        0 <= at < entries.len(),
    ensures
        distinct(entries.remove(at)),
        table_of(entries.remove(at)) == table_of(entries).remove(entries[at].transaction_id@),
{
    let id = entries[at].transaction_id@;
    let shorter = entries.remove(at);
    let target = table_of(entries).remove(id);
    // Where the entry at `i` was before the removal.
    let before = |i: int| if i < at { i } else { i + 1 };
    assert forall|i: int, j: int| 0 <= i < j < shorter.len() implies shorter[i].transaction_id@
        != shorter[j].transaction_id@ by {
        assert(shorter[i] == entries[before(i)]);
        assert(shorter[j] == entries[before(j)]);
    }
    assert forall|other: Seq<u8>| #[trigger]
        table_of(shorter).dom().contains(other) <==> target.dom().contains(other) by {
        if table_of(shorter).dom().contains(other) {
            let i = choose|i: int| holds_at(shorter, other, i);
            assert(shorter[i] == entries[before(i)]);
            assert(holds_at(entries, other, before(i)));
            assert(entries[before(i)].transaction_id@ != entries[at].transaction_id@);
        }
        if target.dom().contains(other) {
            let j = choose|j: int| holds_at(entries, other, j);
            assert(j != at);
            let i = if j < at { j } else { j - 1 };
            assert(shorter[i] == entries[j]);
            assert(holds_at(shorter, other, i));
        }
    }
    assert forall|other: Seq<u8>| #[trigger]
        table_of(shorter).dom().contains(other) implies table_of(shorter)[other]
        == target[other] by {
        let i = choose|i: int| holds_at(shorter, other, i);
        assert(shorter[i] == entries[before(i)]);
        assert(holds_at(entries, other, before(i)));
        lemma_table_of(shorter, i);
        lemma_table_of(entries, before(i));
    }
    assert(table_of(shorter) =~= target);
}

/// The sinks of the entries, in the order of the entries, are the sinks of
/// the table.
proof fn lemma_table_listing<S>(entries: Seq<Transaction<S>>)
    requires
        distinct(entries),
    ensures
        is_listing_of(Seq::new(entries.len(), |i: int| entries[i].sink), table_of(entries)),
{
    let sinks = Seq::new(entries.len(), |i: int| entries[i].sink);
    let ids = Seq::new(entries.len(), |i: int| entries[i].transaction_id@);
    assert forall|id: Seq<u8>| ids.to_set().contains(id) <==> table_of(entries).dom().contains(
        id,
    ) by {
        if ids.to_set().contains(id) {
            let i = choose|i: int| 0 <= i < ids.len() && ids[i] == id;
            assert(holds_at(entries, id, i));
        }
        if table_of(entries).dom().contains(id) {
            let i = choose|i: int| holds_at(entries, id, i);
            assert(ids[i] == id);
        }
    }
    assert(ids.to_set() =~= table_of(entries).dom());
    assert forall|i: int| 0 <= i < ids.len() implies sinks[i] == table_of(
        entries,
    )[#[trigger] ids[i]] by {
        lemma_table_of(entries, i);
    }
    assert(is_listing_in_order(sinks, table_of(entries), ids));
}

impl<S> View for TransactionTable<S> {
    type V = Map<Seq<u8>, S>;

    closed spec fn view(&self) -> Map<Seq<u8>, S> {
        table_of(self.entries@)
    }
}

impl<S> TransactionTable<S> {
    /// No transaction id is held twice.
    #[verifier::type_invariant]
    closed spec fn well_formed(self) -> bool {
        distinct(self.entries@)
    }

    /// An empty table.
    pub fn new() -> (table: Self)
        ensures
            table@ == Map::<Seq<u8>, S>::empty(),
    {
        let table = TransactionTable { entries: Vec::new() };
        assert(table@ =~= Map::<Seq<u8>, S>::empty());
        table
    }

    /// The number of requests in flight.
    pub fn len(&self) -> (count: usize)
        ensures
            self@.dom().finite(),
            count == self@.dom().len(),
    {
        proof {
            use_type_invariant(self);
            lemma_table_len(self.entries@);
        }
        self.entries.len()
    }

    /// Whether no request is in flight.
    pub fn is_empty(&self) -> (empty: bool)
        ensures
            empty == (self@ == Map::<Seq<u8>, S>::empty()),
    {
        proof {
            use_type_invariant(self);
            if self.entries@.len() == 0 {
                assert(self@ =~= Map::<Seq<u8>, S>::empty());
            } else {
                lemma_table_of(self.entries@, 0);
            }
        }
        self.entries.len() == 0
    }

    /// The place of the entry with the given transaction id, if there is
    /// one.
    fn position(&self, transaction_id: &[u8]) -> (place: Option<usize>)
        ensures
            match place {
                Some(at) => holds_at(self.entries@, transaction_id@, at as int),
                None => !self@.contains_key(transaction_id@),
            },
    {
        let mut at: usize = 0;
        while at < self.entries.len()
            invariant
                at <= self.entries@.len(),
                forall|i: int| 0 <= i < at ==> !holds_at(self.entries@, transaction_id@, i),
            decreases self.entries@.len() - at,
        {
            if same_bytes(self.entries[at].transaction_id.as_slice(), transaction_id) {
                return Some(at);
            }
            at = at + 1;
        }
        None
    }

    /// The sink that waits under the given transaction id, if any.
    pub fn get(&self, transaction_id: &[u8]) -> (sink: Option<&S>)
        ensures
            match sink {
                Some(sink) => self@.contains_key(transaction_id@) && *sink
                    == self@[transaction_id@],
                None => !self@.contains_key(transaction_id@),
            },
    {
        proof {
            use_type_invariant(self);
        }
        match self.position(transaction_id) {
            None => None,
            Some(at) => {
                proof {
                    lemma_table_of(self.entries@, at as int);
                }
                Some(&self.entries[at].sink)
            },
        }
    }

    /// Puts the sink under the transaction id, and gives back the sink that
    /// waited there before, if any.
    pub fn insert(&mut self, transaction_id: Vec<u8>, sink: S) -> (before: Option<S>)
        ensures
            final(self)@ == old(self)@.insert(transaction_id@, sink),
            match before {
                Some(before) => old(self)@.contains_key(transaction_id@) && before == old(
                    self,
                )@[transaction_id@],
                None => !old(self)@.contains_key(transaction_id@),
            },
    {
        let before = self.remove(transaction_id.as_slice());
        proof {
            use_type_invariant(&*self);
            lemma_table_of_push(self.entries@, Transaction { transaction_id, sink });
            assert(old(self)@.remove(transaction_id@).insert(transaction_id@, sink) =~= old(
                self,
            )@.insert(transaction_id@, sink));
        }
        // The entries leave the table while they change.
        let mut changed: Vec<Transaction<S>> = Vec::new();
        std::mem::swap(&mut changed, &mut self.entries);
        changed.push(Transaction { transaction_id, sink });
        self.entries = changed;
        before
    }

    /// Takes the sink under the transaction id out of the table, if there
    /// is one.
    pub fn remove(&mut self, transaction_id: &[u8]) -> (sink: Option<S>)
        ensures
            final(self)@ == old(self)@.remove(transaction_id@),
            match sink {
                Some(sink) => old(self)@.contains_key(transaction_id@) && sink == old(
                    self,
                )@[transaction_id@],
                None => !old(self)@.contains_key(transaction_id@),
            },
    {
        proof {
            use_type_invariant(&*self);
        }
        match self.position(transaction_id) {
            None => {
                assert(self@.remove(transaction_id@) =~= self@);
                None
            },
            Some(at) => {
                proof {
                    lemma_table_of(self.entries@, at as int);
                    lemma_table_of_remove(self.entries@, at as int);
                }
                // The entries leave the table while they change.
                let mut changed: Vec<Transaction<S>> = Vec::new();
                std::mem::swap(&mut changed, &mut self.entries);
                let entry = changed.remove(at);
                self.entries = changed;
                Some(entry.sink)
            },
        }
    }

    /// The sinks of all requests in flight.
    pub fn sinks(&self) -> (sinks: Vec<&S>)
        ensures
            is_listing_of(sinks@.unref(), self@),
    {
        proof {
            use_type_invariant(self);
        }
        let mut sinks: Vec<&S> = Vec::new();
        let mut at: usize = 0;
        while at < self.entries.len()
            invariant
                at <= self.entries@.len(),
                sinks@.len() == at,
                forall|i: int| 0 <= i < at ==> *sinks@[i] == self.entries@[i].sink,
            decreases self.entries@.len() - at,
        {
            sinks.push(&self.entries[at].sink);
            at = at + 1;
        }
        proof {
            lemma_table_listing(self.entries@);
            assert(sinks@.unref() =~= Seq::new(
                self.entries@.len(),
                |i: int| self.entries@[i].sink,
            ));
        }
        sinks
    }
}

} // verus!
