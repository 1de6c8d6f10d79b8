//! A status store that lives in memory.

use vstd::prelude::*;
use crate::invoice::{lookup, InvoiceCommands, InvoiceError};

verus! {

/// One invoice with the status last written for it.
#[derive(Clone, Debug)]
pub struct Record {
    invoice_id: String,
    status: String,
}

/// A status store held in memory, for use where no remote store is at hand.
/// It never fails: a read of an unknown invoice is `DoesNotExist`, and every
/// write is kept.
#[derive(Clone, Debug)]
pub struct MemoryDb {
    entries: Vec<Record>,
}

/// The statuses that a list of records stands for. Where an invoice occurs
/// more than once, the record nearest the end counts.
pub closed spec fn table(entries: Seq<Record>) -> Map<Seq<char>, Seq<char>>
    decreases entries.len(),
{
    if entries.len() == 0 {
        Map::empty()
    } else {
        table(entries.drop_last()).insert(entries.last().invoice_id@, entries.last().status@)
    }
}

/// An invoice has a status exactly when a record names it, and the status is
/// that of the last such record.
proof fn lemma_table_holds_last(entries: Seq<Record>, invoice_id: Seq<char>)
    ensures
        table(entries).contains_key(invoice_id) <==> exists|i: int|
            0 <= i < entries.len() && (#[trigger] entries[i]).invoice_id@ == invoice_id,
        forall|i: int|
            0 <= i < entries.len() && (#[trigger] entries[i]).invoice_id@ == invoice_id && (forall|
                j: int,
            |
                i < j < entries.len() ==> (#[trigger] entries[j]).invoice_id@ != invoice_id)
                ==> table(entries)[invoice_id] == entries[i].status@,
    decreases entries.len(),
{
    if entries.len() > 0 {
        let front = entries.drop_last();
        lemma_table_holds_last(front, invoice_id);
        let end = entries.len() - 1;
        if entries[end].invoice_id@ == invoice_id {
            assert(table(entries).contains_key(invoice_id));
        } else {
            if table(entries).contains_key(invoice_id) {
                let i = choose|i: int|
                    0 <= i < front.len() && (#[trigger] front[i]).invoice_id@ == invoice_id;
                assert(entries[i] == front[i]);
            }
            if exists|i: int|
                0 <= i < entries.len() && (#[trigger] entries[i]).invoice_id@ == invoice_id {
                let i = choose|i: int|
                    0 <= i < entries.len() && (#[trigger] entries[i]).invoice_id@ == invoice_id;
                assert(front[i] == entries[i]);
            }
        }
        assert forall|i: int|
            0 <= i < entries.len() && (#[trigger] entries[i]).invoice_id@ == invoice_id && (forall|
                j: int,
            |
                i < j < entries.len() ==> (#[trigger] entries[j]).invoice_id@
                    != invoice_id) implies table(entries)[invoice_id] == entries[i].status@ by {
            if i < end {
                assert(entries[end].invoice_id@ != invoice_id);
                assert(front[i] == entries[i]);
                assert forall|j: int| i < j < front.len() implies (#[trigger] front[j]).invoice_id@
                    != invoice_id by {
                    assert(front[j] == entries[j]);
                }
            }
        }
    }
}

/// Replacing the last record of an invoice by another of the same invoice
/// writes the new status over the old one.
proof fn lemma_table_replaced(entries: Seq<Record>, place: int, record: Record)
    requires
        0 <= place < entries.len(),
        entries[place].invoice_id@ == record.invoice_id@,
        forall|j: int|
            place < j < entries.len() ==> (#[trigger] entries[j]).invoice_id@ != record.invoice_id@,
    ensures
        table(entries.update(place, record)) == table(entries).insert(
            record.invoice_id@,
            record.status@,
        ),
    decreases entries.len(),
{
    let changed = entries.update(place, record);
    let end = entries.len() - 1;
    if place == end {
        assert(changed.drop_last() =~= entries.drop_last());
    } else {
        assert(changed.drop_last() =~= entries.drop_last().update(place, record));
        assert(changed.last() == entries.last());
        assert(entries[end].invoice_id@ != record.invoice_id@);
        assert forall|j: int| place < j < entries.drop_last().len() implies (
        #[trigger] entries.drop_last()[j]).invoice_id@ != record.invoice_id@ by {
            assert(entries.drop_last()[j] == entries[j]);
        }
        lemma_table_replaced(entries.drop_last(), place, record);
    }
    assert(table(changed) =~= table(entries).insert(record.invoice_id@, record.status@));
}

impl MemoryDb {
    /// A store that holds no status.
    pub fn new() -> (db: MemoryDb)
        ensures
            db.records() == Map::<Seq<char>, Seq<char>>::empty(),
    {
        MemoryDb { entries: Vec::new() }
    }

    /// The place of the last record of `invoice_id`.
    fn find(&self, invoice_id: &String) -> (found: Option<usize>)
        ensures
            match found {
                Some(place) => {
                    &&& place < self.entries.len()
                    &&& self.entries[place as int].invoice_id@ == invoice_id@
                    &&& forall|j: int|
                        place < j < self.entries.len() ==> (#[trigger] self.entries[j]).invoice_id@
                            != invoice_id@
                },
                None => forall|j: int|
                    0 <= j < self.entries.len() ==> (#[trigger] self.entries[j]).invoice_id@
                        != invoice_id@,
            },
    {
        let mut place: usize = self.entries.len();
        while place > 0
            invariant
                place <= self.entries.len(),
                forall|j: int|
                    place <= j < self.entries.len() ==> (#[trigger] self.entries[j]).invoice_id@
                        != invoice_id@,
            decreases place,
        {
            place = place - 1;
            if self.entries[place].invoice_id == *invoice_id {
                return Some(place);
            }
        }
        None
    }
}

impl InvoiceCommands for MemoryDb {
    open spec fn modelled(&self) -> bool {
        true
    }

    closed spec fn records(&self) -> Map<Seq<char>, Seq<char>> {
        table(self.entries@)
    }

    /// The status last written for `invoice_id`, or `DoesNotExist` if none was.
    fn get_invoice_status(&self, invoice_id: String) -> (status: Result<String, InvoiceError>)
        ensures
            match status {
                Ok(found) => lookup(self.records(), invoice_id@) == Ok::<Seq<char>, InvoiceError>(
                    found@,
                ),
                Err(error) => lookup(self.records(), invoice_id@) == Err::<Seq<char>, InvoiceError>(
                    error,
                ),
            },
    {
        proof {
            lemma_table_holds_last(self.entries@, invoice_id@);
        }
        match self.find(&invoice_id) {
            Some(place) => Ok(self.entries[place].status.clone()),
            None => Err(InvoiceError::DoesNotExist),
        }
    }

    /// Writes `status` for `invoice_id`, over whatever was there. Never fails.
    fn set_invoice_status(&mut self, invoice_id: String, status: String) -> (written: Result<
        (),
        InvoiceError,
    >)
        ensures
            written is Ok,
            final(self).records() == old(self).records().insert(invoice_id@, status@),
    {
        let found = self.find(&invoice_id);
        let record = Record { invoice_id, status };
        match found {
            Some(place) => {
                proof {
                    lemma_table_replaced(self.entries@, place as int, record);
                }
                self.entries.set(place, record);
            },
            None => {
                proof {
                    assert(self.entries@.push(record).drop_last() =~= self.entries@);
                }
                self.entries.push(record);
            },
        }
        Ok(())
    }
}

} // verus!
