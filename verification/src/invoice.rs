//! Invoice statuses, the errors of a status store, and the store's interface.

use vstd::prelude::*;
use vstd::string::*;
use crate::text::same_text;

verus! {

/// What can go wrong when a status is read or written.
#[derive(Debug, Clone, Copy, PartialEq, Eq, Structural)]
pub enum InvoiceError {
    DbConnection,
    DbAuthentication,
    DoesNotExist,
    AlreadyExists,
    BadStatusUpdate,
    BadStatus,
}

impl InvoiceError {
    /// The variant's name, as it is written in source.
    pub open spec fn name(self) -> Seq<char> {
        match self {
            InvoiceError::DbConnection => "DbConnection"@,
            InvoiceError::DbAuthentication => "DbAuthentication"@,
            InvoiceError::DoesNotExist => "DoesNotExist"@,
            InvoiceError::AlreadyExists => "AlreadyExists"@,
            InvoiceError::BadStatusUpdate => "BadStatusUpdate"@,
            InvoiceError::BadStatus => "BadStatus"@,
        }
    }

    /// The text shown for this error: the variant's name inside `InvoiceError(..)`.
    pub open spec fn text(self) -> Seq<char> {
        "InvoiceError("@ + self.name() + ")"@
    }

    /// Renders the error for a reader.
    pub fn to_string(&self) -> (shown: String)
        ensures
            shown@ == self.text(),
    {
        let mut shown = String::from_str("InvoiceError(");
        let name: &str = match self {
            InvoiceError::DbConnection => "DbConnection",
            InvoiceError::DbAuthentication => "DbAuthentication",
            InvoiceError::DoesNotExist => "DoesNotExist",
            InvoiceError::AlreadyExists => "AlreadyExists",
            InvoiceError::BadStatusUpdate => "BadStatusUpdate",
            InvoiceError::BadStatus => "BadStatus",
        };
        shown.append(name);
        shown.append(")");
        shown
    }
}

/// The four statuses an invoice passes through. `Payed` and `Expired` end
/// its life: no further change is expected after either.
#[derive(Debug, Clone, Copy, PartialEq, Eq, Structural)]
pub enum InvoiceStatus {
    Created,
    PartiallyPayed,
    Payed,
    Expired,
}

impl InvoiceStatus {
    /// The name under which the status travels and is stored.
    pub open spec fn wire_name(self) -> Seq<char> {
        match self {
            InvoiceStatus::Created => "InvoiceCreated"@,
            InvoiceStatus::Expired => "InvoiceExpired"@,
            InvoiceStatus::PartiallyPayed => "InvoiceRecievedPayment"@,
            InvoiceStatus::Payed => "InvoicePayed"@,
        }
    }

    /// The status that a stored name stands for, if it stands for one.
    pub open spec fn parse(name: Seq<char>) -> Option<InvoiceStatus> {
        if name == InvoiceStatus::Created.wire_name() {
            Some(InvoiceStatus::Created)
        } else if name == InvoiceStatus::Expired.wire_name() {
            Some(InvoiceStatus::Expired)
        } else if name == InvoiceStatus::PartiallyPayed.wire_name() {
            Some(InvoiceStatus::PartiallyPayed)
        } else if name == InvoiceStatus::Payed.wire_name() {
            Some(InvoiceStatus::Payed)
        } else {
            None
        }
    }

    /// Whether the status ends the invoice's life.
    pub open spec fn terminal(self) -> bool {
        self == InvoiceStatus::Payed || self == InvoiceStatus::Expired
    }

    /// Reads a status from its stored name; any other text is `BadStatus`.
    pub fn from_str(status: &str) -> (parsed: Result<InvoiceStatus, InvoiceError>)
        ensures
            parsed == match InvoiceStatus::parse(status@) {
                Some(known) => Ok::<InvoiceStatus, InvoiceError>(known),
                None => Err(InvoiceError::BadStatus),
            },
    {
        if same_text(status, "InvoiceCreated") {
            Ok(InvoiceStatus::Created)
        } else if same_text(status, "InvoiceExpired") {
            Ok(InvoiceStatus::Expired)
        } else if same_text(status, "InvoiceRecievedPayment") {
            Ok(InvoiceStatus::PartiallyPayed)
        } else if same_text(status, "InvoicePayed") {
            Ok(InvoiceStatus::Payed)
        } else {
            Err(InvoiceError::BadStatus)
        }
    }

    /// The stored name of the status.
    pub fn to_string(&self) -> (name: String)
        ensures
            name@ == self.wire_name(),
    {
        match self {
            InvoiceStatus::Created => String::from_str("InvoiceCreated"),
            InvoiceStatus::Expired => String::from_str("InvoiceExpired"),
            InvoiceStatus::PartiallyPayed => String::from_str("InvoiceRecievedPayment"),
            InvoiceStatus::Payed => String::from_str("InvoicePayed"),
        }
    }

    /// Whether the status ends the invoice's life.
    pub fn is_terminal(&self) -> (ended: bool)
        ensures
            ended == self.terminal(),
    {
        match self {
            InvoiceStatus::Payed | InvoiceStatus::Expired => true,
            InvoiceStatus::Created | InvoiceStatus::PartiallyPayed => false,
        }
    }
}

/// Every status is read back from its own stored name.
pub proof fn lemma_parse_inverts_wire_name(status: InvoiceStatus)
    ensures
        InvoiceStatus::parse(status.wire_name()) == Some(status),
{
    reveal_strlit("InvoiceCreated");
    reveal_strlit("InvoiceExpired");
    reveal_strlit("InvoiceRecievedPayment");
    reveal_strlit("InvoicePayed");
    assert("InvoiceCreated"@.len() == 14 && "InvoiceCreated"@[7] == 'C');
    assert("InvoiceExpired"@.len() == 14 && "InvoiceExpired"@[7] == 'E');
    assert("InvoiceRecievedPayment"@.len() == 22);
    assert("InvoicePayed"@.len() == 12);
}

/// What reading `invoice_id` from `records` gives: the status held for it, or
/// `DoesNotExist` where none is held.
pub open spec fn lookup(records: Map<Seq<char>, Seq<char>>, invoice_id: Seq<char>) -> Result<
    Seq<char>,
    InvoiceError,
> {
    if records.contains_key(invoice_id) {
        Ok(records[invoice_id])
    } else {
        Err(InvoiceError::DoesNotExist)
    }
}

/// The records of a store that was empty and then took `writes`, each an
/// invoice id with a status, one after another.
pub open spec fn after_writes(writes: Seq<(Seq<char>, Seq<char>)>) -> Map<Seq<char>, Seq<char>>
    decreases writes.len(),
{
    if writes.len() == 0 {
        Map::empty()
    } else {
        after_writes(writes.drop_last()).insert(writes.last().0, writes.last().1)
    }
}

/// A status that was written is what the next read of that invoice returns,
/// whatever the store held before.
pub proof fn lemma_read_after_write(
    records: Map<Seq<char>, Seq<char>>,
    invoice_id: Seq<char>,
    status: Seq<char>,
)
    ensures
        lookup(records.insert(invoice_id, status), invoice_id) == Ok::<Seq<char>, InvoiceError>(
            status,
        ),
{
}

/// Of two writes for one invoice the later one counts, and the store is as
/// if only that one had been made. Writing the same status twice changes nothing.
pub proof fn lemma_last_write_wins(
    records: Map<Seq<char>, Seq<char>>,
    invoice_id: Seq<char>,
    earlier: Seq<char>,
    later: Seq<char>,
)
    ensures
        records.insert(invoice_id, earlier).insert(invoice_id, later) == records.insert(
            invoice_id,
            later,
        ),
        lookup(records.insert(invoice_id, earlier).insert(invoice_id, later), invoice_id) == Ok::<
            Seq<char>,
            InvoiceError,
        >(later),
        records.insert(invoice_id, later).insert(invoice_id, later) == records.insert(
            invoice_id,
            later,
        ),
{
    assert(records.insert(invoice_id, earlier).insert(invoice_id, later) =~= records.insert(
        invoice_id,
        later,
    ));
    assert(records.insert(invoice_id, later).insert(invoice_id, later) =~= records.insert(
        invoice_id,
        later,
    ));
}

/// A write for one invoice leaves what is read of every other invoice as it was.
pub proof fn lemma_write_keeps_others(
    records: Map<Seq<char>, Seq<char>>,
    written_id: Seq<char>,
    status: Seq<char>,
    invoice_id: Seq<char>,
)
    requires
        invoice_id != written_id,
    ensures
        lookup(records.insert(written_id, status), invoice_id) == lookup(records, invoice_id),
{
}

/// An invoice that was never written has no status: reading it from a store
/// that started empty is `DoesNotExist`, whatever was written for others.
pub proof fn lemma_unwritten_does_not_exist(
    writes: Seq<(Seq<char>, Seq<char>)>,
    invoice_id: Seq<char>,
)
    requires
        forall|i: int| 0 <= i < writes.len() ==> (#[trigger] writes[i]).0 != invoice_id,
    ensures
        lookup(after_writes(writes), invoice_id) == Err::<Seq<char>, InvoiceError>(
            InvoiceError::DoesNotExist,
        ),
    decreases writes.len(),
{
    if writes.len() > 0 {
        let front = writes.drop_last();
        assert forall|i: int| 0 <= i < front.len() implies (#[trigger] front[i]).0
            != invoice_id by {
            assert(front[i] == writes[i]);
        }
        lemma_unwritten_does_not_exist(front, invoice_id);
        assert(writes.last() == writes[writes.len() - 1]);
    }
}

/// After any writes, an invoice reads as the status of the last write made for it.
pub proof fn lemma_reads_last_write(
    writes: Seq<(Seq<char>, Seq<char>)>,
    place: int,
)
    requires
        0 <= place < writes.len(),
        forall|i: int| place < i < writes.len() ==> (#[trigger] writes[i]).0 != writes[place].0,
    ensures
        lookup(after_writes(writes), writes[place].0) == Ok::<Seq<char>, InvoiceError>(
            writes[place].1,
        ),
    decreases writes.len(),
{
    let end = writes.len() - 1;
    if place < end {
        let front = writes.drop_last();
        assert(front[place] == writes[place]);
        assert forall|i: int| place < i < front.len() implies (#[trigger] front[i]).0
            != front[place].0 by {
            assert(front[i] == writes[i]);
        }
        lemma_reads_last_write(front, place);
        assert(writes[end].0 != writes[place].0);
    }
}

/// A status store: the latest status of each invoice, by invoice id.
///
/// A store may say what it holds: it then answers `true` to `modelled` and
/// gives its statuses as `records`. A store of which nothing is known, such
/// as one behind a network, leaves both as they are here.
pub trait InvoiceCommands {
    /// Whether `records` describes what the store holds.
    open spec fn modelled(&self) -> bool {
        false
    }

    /// The statuses the store holds, where it is modelled.
    open spec fn records(&self) -> Map<Seq<char>, Seq<char>> {
        Map::empty()
    }

    /// The status last written for `invoice_id`. What a modelled store
    /// returns is what its records hold.
    fn get_invoice_status(&self, invoice_id: String) -> (status: Result<String, InvoiceError>)
        ensures
            self.modelled() && status is Ok ==> lookup(self.records(), invoice_id@) == Ok::<
                Seq<char>,
                InvoiceError,
            >(status->Ok_0@),
    ;

    /// Writes `status` for `invoice_id`, over whatever was there. A modelled
    /// store that acknowledges the write holds it afterwards.
    fn set_invoice_status(&mut self, invoice_id: String, status: String) -> (written: Result<
        (),
        InvoiceError,
    >)
        ensures
            old(self).modelled() && written is Ok ==> final(self).modelled(),
            old(self).modelled() && written is Ok ==> final(self).records() == old(self).records().insert(invoice_id@, status@),
    ;
}

} // verus!
