use vstd::prelude::*;
use vstd::utf8::encode_utf8;
use crate::ids::{EventId, Key, MintId};

verus! {

/// Why an operation on the ledger was refused. A refused operation changes
/// nothing.
#[derive(Clone, Copy, Debug, PartialEq, Eq, Structural)]
pub enum ErrorCode {
    TitleTooLong,
    VenueTooLong,
    TierNameTooLong,
    InvalidSupply,
    SoldOut,
    Overflow,
    InvalidPrice,
    InvalidSeller,
    InvalidOrganizer,
    /// A record with the derived address exists already.
    AlreadyExists,
    /// A referenced record does not exist.
    NotFound,
    /// The listing belongs to another event than the one given.
    InvalidEvent,
    /// The seller does not hold the ticket in their wallet.
    NotTicketHolder,
}

/// Who holds a ticket: a wallet, or the escrow custody of its listing.
#[derive(Clone, Copy, Debug, PartialEq, Eq, Structural)]
pub enum Holder {
    Wallet(Key),
    Escrow(MintId),
}

/// One issued ticket and its current holder.
#[derive(Clone, Copy, Debug, PartialEq, Eq, Structural)]
pub struct Ticket {
    pub mint: MintId,
    pub owner: Holder,
}

/// A sellable occasion with a fixed supply of tickets at a fixed price.
#[derive(Clone, Debug)]
pub struct Event {
    pub organizer: Key,
    pub nonce: u64,
    pub title: String,
    pub venue: String,
    pub date_ts: i64,
    pub tier_name: String,
    pub price_lamports: u64,
    pub supply: u32,
    pub sold: u32,
}

/// An open offer by `seller` to resell the ticket `ticket_mint`, which sits in
/// escrow meanwhile. Its address is the ticket's mint.
#[derive(Clone, Copy, Debug, PartialEq, Eq, Structural)]
pub struct Listing {
    pub seller: Key,
    pub event: EventId,
    pub ticket_mint: MintId,
    pub price_lamports: u64,
}

/// A movement of value that the surrounding runtime carries out, all of an
/// operation's movements together or none.
#[derive(Clone, Copy, Debug, PartialEq, Eq, Structural)]
pub enum Transfer {
    /// Native currency from one wallet to another.
    Lamports { from: Key, to: Key, amount: u64 },
    /// A new ticket asset of quantity one, decimals zero, to a wallet.
    MintTicket { mint: MintId, to: Key },
    /// The single unit of a ticket asset from one holder to another.
    MoveTicket { mint: MintId, source: Holder, dest: Holder },
    /// Closing a ticket's escrow custody record, its deposit going to a wallet.
    CloseEscrow { mint: MintId, deposit_to: Key },
}

/// Length of a text in bytes, as UTF-8.
pub open spec fn byte_len(s: Seq<char>) -> nat {
    encode_utf8(s).len()
}

impl Event {
    /// The address of this event.
    pub open spec fn key(self) -> EventId {
        EventId { organizer: self.organizer, nonce: self.nonce }
    }

    pub fn id(&self) -> (r: EventId)
        ensures
            r == self.key(),
    {
        EventId { organizer: self.organizer, nonce: self.nonce }
    }
}

/// All records of the ledger: events, issued tickets and open listings.
pub struct Ledger {
    pub events: Vec<Event>,
    pub tickets: Vec<Ticket>,
    pub listings: Vec<Listing>,
}

impl Ledger {
    /// Addresses are unique within each kind of record, every event has sold
    /// at most its supply, and a ticket sits in escrow exactly while a
    /// listing for it is open.
    pub open spec fn wf(self) -> bool {
        &&& forall|i: int, j: int|
            0 <= i < j < self.events@.len() ==> self.events@[i].key() != self.events@[j].key()
        &&& forall|i: int, j: int|
            0 <= i < j < self.tickets@.len() ==> self.tickets@[i].mint != self.tickets@[j].mint
        &&& forall|i: int, j: int|
            0 <= i < j < self.listings@.len() ==> self.listings@[i].ticket_mint
                != self.listings@[j].ticket_mint
        &&& forall|i: int|
            0 <= i < self.events@.len() ==> 0 < self.events@[i].supply && self.events@[i].sold
                <= self.events@[i].supply
        &&& forall|i: int|
            0 <= i < self.tickets@.len() ==> (self.tickets@[i].owner is Escrow ==> self.tickets@[i].owner->Escrow_0 == self.tickets@[i].mint)
        &&& forall|i: int|
            0 <= i < self.tickets@.len() ==> (self.tickets@[i].owner is Escrow <==> self.has_listing(self.tickets@[i].mint))
        &&& forall|k: int|
            0 <= k < self.listings@.len() ==> self.has_ticket(self.listings@[k].ticket_mint)
    }

    pub open spec fn has_event(self, id: EventId) -> bool {
        exists|i: int| 0 <= i < self.events@.len() && self.events@[i].key() == id
    }

    pub open spec fn event_pos(self, id: EventId) -> int {
        choose|i: int| 0 <= i < self.events@.len() && self.events@[i].key() == id
    }

    /// The event at address `id`, where there is one.
    pub open spec fn event_of(self, id: EventId) -> Event {
        self.events@[self.event_pos(id)]
    }

    pub open spec fn has_ticket(self, mint: MintId) -> bool {
        exists|i: int| 0 <= i < self.tickets@.len() && self.tickets@[i].mint == mint
    }

    pub open spec fn ticket_pos(self, mint: MintId) -> int {
        choose|i: int| 0 <= i < self.tickets@.len() && self.tickets@[i].mint == mint
    }

    /// The holder of ticket `mint`, where it was issued.
    pub open spec fn holder_of(self, mint: MintId) -> Holder {
        self.tickets@[self.ticket_pos(mint)].owner
    }

    pub open spec fn has_listing(self, mint: MintId) -> bool {
        exists|i: int| 0 <= i < self.listings@.len() && self.listings@[i].ticket_mint == mint
    }

    pub open spec fn listing_pos(self, mint: MintId) -> int {
        choose|i: int| 0 <= i < self.listings@.len() && self.listings@[i].ticket_mint == mint
    }

    /// The open listing of ticket `mint`, where there is one.
    pub open spec fn listing_of(self, mint: MintId) -> Listing {
        self.listings@[self.listing_pos(mint)]
    }

    /// Under `wf`, a ticket found at position `i` is the one `ticket_pos`
    /// names.
    pub proof fn lemma_ticket_pos(self, i: int, mint: MintId)
        requires
            self.wf(),
            0 <= i < self.tickets@.len(),
            self.tickets@[i].mint == mint,
        ensures
            self.has_ticket(mint),
            self.ticket_pos(mint) == i,
            self.holder_of(mint) == self.tickets@[i].owner,
    {
        let p = self.ticket_pos(mint);
        if p < i {
            assert(self.tickets@[p].mint != self.tickets@[i].mint);
        } else if p > i {
            assert(self.tickets@[i].mint != self.tickets@[p].mint);
        }
    }

    /// A ledger without records.
    pub fn new() -> (r: Ledger)
        ensures
            r.wf(),
            r.events@.len() == 0,
            r.tickets@.len() == 0,
            r.listings@.len() == 0,
    {
        Ledger { events: Vec::new(), tickets: Vec::new(), listings: Vec::new() }
    }

    /// Position of the event at address `id`.
    pub fn find_event(&self, id: EventId) -> (r: Option<usize>)
        requires
            self.wf(),
        ensures
            r is None <==> !self.has_event(id),
            r matches Some(i) ==> i == self.event_pos(id) && i < self.events@.len(),
    {
        let mut i: usize = 0;
        while i < self.events.len()
            invariant
                self.wf(),
                i <= self.events@.len(),
                forall|j: int| 0 <= j < i ==> self.events@[j].key() != id,
            decreases self.events@.len() - i,
        {
            if self.events[i].id() == id {
                proof {
                    let p = self.event_pos(id);
                    assert(self.events@[p].key() == id);
                    if p < i as int {
                        assert(self.events@[p].key() != self.events@[i as int].key());
                    } else if p > i as int {
                        assert(self.events@[i as int].key() != self.events@[p].key());
                    }
                    assert(p == i as int);
                }
                return Some(i);
            }
            i += 1;
        }
        None
    }

    /// Position of the ticket with mint `mint`.
    pub fn find_ticket(&self, mint: MintId) -> (r: Option<usize>)
        requires
            self.wf(),
        ensures
            r is None <==> !self.has_ticket(mint),
            r matches Some(i) ==> i == self.ticket_pos(mint) && i < self.tickets@.len(),
    {
        let mut i: usize = 0;
        while i < self.tickets.len()
            invariant
                self.wf(),
                i <= self.tickets@.len(),
                forall|j: int| 0 <= j < i ==> self.tickets@[j].mint != mint,
            decreases self.tickets@.len() - i,
        {
            if self.tickets[i].mint == mint {
                proof {
                    let p = self.ticket_pos(mint);
                    assert(self.tickets@[p].mint == mint);
                    if p < i as int {
                        assert(self.tickets@[p].mint != self.tickets@[i as int].mint);
                    } else if p > i as int {
                        assert(self.tickets@[i as int].mint != self.tickets@[p].mint);
                    }
                    assert(p == i as int);
                }
                return Some(i);
            }
            i += 1;
        }
        None
    }

    /// Position of the open listing of ticket `mint`.
    pub fn find_listing(&self, mint: MintId) -> (r: Option<usize>)
        requires
            self.wf(),
        ensures
            r is None <==> !self.has_listing(mint),
            r matches Some(i) ==> i == self.listing_pos(mint) && i < self.listings@.len(),
    {
        let mut i: usize = 0;
        while i < self.listings.len()
            invariant
                self.wf(),
                i <= self.listings@.len(),
                forall|j: int| 0 <= j < i ==> self.listings@[j].ticket_mint != mint,
            decreases self.listings@.len() - i,
        {
            if self.listings[i].ticket_mint == mint {
                proof {
                    let p = self.listing_pos(mint);
                    assert(self.listings@[p].ticket_mint == mint);
                    if p < i as int {
                        assert(self.listings@[p].ticket_mint != self.listings@[i as int].ticket_mint);
                    } else if p > i as int {
                        assert(self.listings@[i as int].ticket_mint != self.listings@[p].ticket_mint);
                    }
                    assert(p == i as int);
                }
                return Some(i);
            }
            i += 1;
        }
        None
    }
}

} // verus!
