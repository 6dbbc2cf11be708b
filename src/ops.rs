use vstd::prelude::*;
use crate::ids::{derive_event_id, derive_ticket_mint, EventId, Key, MintId};
use crate::split::{forty_percent, resale_split};
use crate::state::{byte_len, ErrorCode, Event, Holder, Ledger, Listing, Ticket, Transfer};

verus! {

/// Parties to `create_event`.
#[derive(Clone, Copy, Debug, PartialEq, Eq, Structural)]
pub struct CreateEvent {
    pub organizer: Key,
}

/// Parties to `close_event`.
#[derive(Clone, Copy, Debug, PartialEq, Eq, Structural)]
pub struct CloseEvent {
    pub organizer: Key,
    pub event: EventId,
}

/// The error with which `create_event` refuses, or `None` where it succeeds.
pub open spec fn create_event_error(
    l: Ledger,
    organizer: Key,
    nonce: u64,
    title: Seq<char>,
    venue: Seq<char>,
    tier_name: Seq<char>,
    supply: u32,
) -> Option<ErrorCode> {
    if byte_len(title) > 64 {
        Some(ErrorCode::TitleTooLong)
    } else if byte_len(venue) > 64 {
        Some(ErrorCode::VenueTooLong)
    } else if byte_len(tier_name) > 32 {
        Some(ErrorCode::TierNameTooLong)
    } else if supply == 0 {
        Some(ErrorCode::InvalidSupply)
    } else if l.has_event(EventId { organizer, nonce }) {
        Some(ErrorCode::AlreadyExists)
    } else {
        None
    }
}

/// Creates an event with nothing sold, at the address derived from its
/// organizer and `nonce`.
pub fn create_event(
    ledger: &mut Ledger,
    accounts: CreateEvent,
    nonce: u64,
    title: String,
    venue: String,
    date_ts: i64,
    tier_name: String,
    price_lamports: u64,
    supply: u32,
) -> (r: Result<EventId, ErrorCode>)
    requires
        old(ledger).wf(),
    ensures
        final(ledger).wf(),
        match create_event_error(
            *old(ledger),
            accounts.organizer,
            nonce,
            title@,
            venue@,
            tier_name@,
            supply,
        ) {
            Some(e) => r == Err::<EventId, ErrorCode>(e) && *final(ledger) == *old(ledger),
            None => {
                &&& r == Ok::<EventId, ErrorCode>(EventId { organizer: accounts.organizer, nonce })
                &&& final(ledger).events@ == old(ledger).events@.push(
                    (Event {
                        organizer: accounts.organizer,
                        nonce,
                        title,
                        venue,
                        date_ts,
                        tier_name,
                        price_lamports,
                        supply,
                        sold: 0,
                    }),
                )
                &&& final(ledger).tickets@ == old(ledger).tickets@
                &&& final(ledger).listings@ == old(ledger).listings@
            },
        },
{
    if title.as_str().as_bytes().len() > 64 {
        return Err(ErrorCode::TitleTooLong);
    }
    if venue.as_str().as_bytes().len() > 64 {
        return Err(ErrorCode::VenueTooLong);
    }
    if tier_name.as_str().as_bytes().len() > 32 {
        return Err(ErrorCode::TierNameTooLong);
    }
    if supply == 0 {
        return Err(ErrorCode::InvalidSupply);
    }
    let id = derive_event_id(accounts.organizer, nonce);
    if ledger.find_event(id).is_some() {
        return Err(ErrorCode::AlreadyExists);
    }
    let event = Event {
        organizer: accounts.organizer,
        nonce,
        title,
        venue,
        date_ts,
        tier_name,
        price_lamports,
        supply,
        sold: 0,
    };
    ledger.events.push(event);
    proof {
        assert(forall|i: int| 0 <= i < old(ledger).events@.len() ==> ledger.events@[i] == old(ledger).events@[i]);
        assert(forall|m: MintId| ledger.has_listing(m) == old(ledger).has_listing(m));
        assert(forall|m: MintId| ledger.has_ticket(m) == old(ledger).has_ticket(m));
    }
    Ok(id)
}

/// The error with which `close_event` refuses, or `None` where it succeeds.
pub open spec fn close_event_error(l: Ledger, accounts: CloseEvent) -> Option<ErrorCode> {
    if !l.has_event(accounts.event) {
        Some(ErrorCode::NotFound)
    } else if l.event_of(accounts.event).organizer != accounts.organizer {
        Some(ErrorCode::InvalidOrganizer)
    } else {
        None
    }
}

/// Removes an event on its organizer's request. Tickets already sold stay
/// where they are.
pub fn close_event(ledger: &mut Ledger, accounts: CloseEvent) -> (r: Result<(), ErrorCode>)
    requires
        old(ledger).wf(),
    ensures
        final(ledger).wf(),
        match close_event_error(*old(ledger), accounts) {
            Some(e) => r == Err::<(), ErrorCode>(e) && *final(ledger) == *old(ledger),
            None => {
                &&& r == Ok::<(), ErrorCode>(())
                &&& final(ledger).events@ == old(ledger).events@.remove(
                    old(ledger).event_pos(accounts.event),
                )
                &&& !final(ledger).has_event(accounts.event)
                &&& final(ledger).tickets@ == old(ledger).tickets@
                &&& final(ledger).listings@ == old(ledger).listings@
            },
        },
{
    let pos = match ledger.find_event(accounts.event) {
        Some(p) => p,
        None => {
            return Err(ErrorCode::NotFound);
        },
    };
    if ledger.events[pos].organizer != accounts.organizer {
        return Err(ErrorCode::InvalidOrganizer);
    }
    let ghost before = ledger.events@;
    ledger.events.remove(pos);
    proof {
        before.remove_ensures(pos as int);
        assert(forall|m: MintId| ledger.has_listing(m) == old(ledger).has_listing(m));
        assert(forall|m: MintId| ledger.has_ticket(m) == old(ledger).has_ticket(m));
        if ledger.has_event(accounts.event) {
            let j = choose|j: int|
                0 <= j < ledger.events@.len() && ledger.events@[j].key() == accounts.event;
            if j < pos {
                assert(before[j].key() != before[pos as int].key());
            } else {
                assert(before[pos as int].key() != before[j + 1].key());
            }
        }
    }
    Ok(())
}

/// Parties to `buy_ticket`.
#[derive(Clone, Copy, Debug, PartialEq, Eq, Structural)]
pub struct BuyTicket {
    pub buyer: Key,
    pub organizer: Key,
    pub event: EventId,
}

/// The error with which `buy_ticket` refuses, or `None` where it succeeds.
pub open spec fn buy_ticket_error(l: Ledger, accounts: BuyTicket) -> Option<ErrorCode> {
    let e = l.event_of(accounts.event);
    if !l.has_event(accounts.event) {
        Some(ErrorCode::NotFound)
    } else if e.organizer != accounts.organizer {
        Some(ErrorCode::InvalidOrganizer)
    } else if e.sold >= e.supply {
        Some(ErrorCode::SoldOut)
    } else if l.has_ticket(MintId { event: accounts.event, seq: e.sold }) {
        Some(ErrorCode::AlreadyExists)
    } else {
        None
    }
}

/// The event `e` with one more ticket sold.
pub open spec fn sold_one_more(e: Event) -> Event {
    Event { sold: (e.sold + 1) as u32, ..e }
}

/// Sells the next ticket of an event: the buyer pays the event's price to the
/// organizer and receives a new ticket whose mint is derived from the event
/// and the number sold before it.
pub fn buy_ticket(ledger: &mut Ledger, accounts: BuyTicket) -> (r: Result<
    (MintId, Vec<Transfer>),
    ErrorCode,
>)
    requires
        old(ledger).wf(),
    ensures
        final(ledger).wf(),
        match buy_ticket_error(*old(ledger), accounts) {
            Some(e) => r matches Err(x) && x == e && *final(ledger) == *old(ledger),
            None => {
                let e = old(ledger).event_of(accounts.event);
                let mint = MintId { event: accounts.event, seq: e.sold };
                &&& r matches Ok((m, t)) && m == mint && t@ == seq![
                    Transfer::Lamports {
                        from: accounts.buyer,
                        to: accounts.organizer,
                        amount: e.price_lamports,
                    },
                    Transfer::MintTicket { mint, to: accounts.buyer },
                ]
                &&& final(ledger).events@ == old(ledger).events@.update(
                    old(ledger).event_pos(accounts.event),
                    sold_one_more(e),
                )
                &&& final(ledger).tickets@ == old(ledger).tickets@.push(
                    (Ticket { mint, owner: Holder::Wallet(accounts.buyer) }),
                )
                &&& final(ledger).listings@ == old(ledger).listings@
            },
        },
{
    let pos = match ledger.find_event(accounts.event) {
        Some(p) => p,
        None => {
            return Err(ErrorCode::NotFound);
        },
    };
    if ledger.events[pos].organizer != accounts.organizer {
        return Err(ErrorCode::InvalidOrganizer);
    }
    let sold = ledger.events[pos].sold;
    if sold >= ledger.events[pos].supply {
        return Err(ErrorCode::SoldOut);
    }
    let mint = derive_ticket_mint(accounts.event, sold);
    if ledger.find_ticket(mint).is_some() {
        return Err(ErrorCode::AlreadyExists);
    }
    let next = match sold.checked_add(1) {
        Some(n) => n,
        None => {
            return Err(ErrorCode::Overflow);
        },
    };
    let price = ledger.events[pos].price_lamports;
    let ghost before = *ledger;
    let mut event = ledger.events.remove(pos);
    event.sold = next;
    ledger.events.insert(pos, event);
    ledger.tickets.push(Ticket { mint, owner: Holder::Wallet(accounts.buyer) });
    proof {
        before.events@.remove_ensures(pos as int);
        assert(ledger.events@ =~= before.events@.update(pos as int, sold_one_more(before.events@[pos as int])));
        assert(forall|i: int| 0 <= i < before.events@.len() ==> ledger.events@[i].key() == before.events@[i].key());
        assert(forall|i: int| 0 <= i < before.tickets@.len() ==> ledger.tickets@[i] == before.tickets@[i]);
        if before.has_listing(mint) {
            let k = choose|k: int| 0 <= k < before.listings@.len() && before.listings@[k].ticket_mint == mint;
            assert(before.has_ticket(before.listings@[k].ticket_mint));
        }
        assert(ledger.listings@ == before.listings@);
        assert(forall|m: MintId| ledger.has_listing(m) == before.has_listing(m));
        assert forall|m: MintId| before.has_ticket(m) implies ledger.has_ticket(m) by {
            let i = choose|i: int| 0 <= i < before.tickets@.len() && before.tickets@[i].mint == m;
            assert(ledger.tickets@[i].mint == m);
        }
    }
    let mut transfers: Vec<Transfer> = Vec::new();
    transfers.push(Transfer::Lamports { from: accounts.buyer, to: accounts.organizer, amount: price });
    transfers.push(Transfer::MintTicket { mint, to: accounts.buyer });
    Ok((mint, transfers))
}

/// Parties to `list_for_resale`.
#[derive(Clone, Copy, Debug, PartialEq, Eq, Structural)]
pub struct ListForResale {
    pub seller: Key,
    pub event: EventId,
    pub ticket_mint: MintId,
}

/// The error with which `list_for_resale` refuses, or `None` where it succeeds.
pub open spec fn list_for_resale_error(l: Ledger, accounts: ListForResale, price_lamports: u64) -> Option<
    ErrorCode,
> {
    if price_lamports == 0 {
        Some(ErrorCode::InvalidPrice)
    } else if !l.has_event(accounts.event) || !l.has_ticket(accounts.ticket_mint) {
        Some(ErrorCode::NotFound)
    } else if l.has_listing(accounts.ticket_mint) {
        Some(ErrorCode::AlreadyExists)
    } else if l.holder_of(accounts.ticket_mint) != Holder::Wallet(accounts.seller) {
        Some(ErrorCode::NotTicketHolder)
    } else {
        None
    }
}

/// Offers a ticket for resale at `price_lamports`: the ticket moves from the
/// seller's wallet into escrow, and a listing at the ticket's address opens.
pub fn list_for_resale(ledger: &mut Ledger, accounts: ListForResale, price_lamports: u64) -> (r:
    Result<Vec<Transfer>, ErrorCode>)
    requires
        old(ledger).wf(),
    ensures
        final(ledger).wf(),
        match list_for_resale_error(*old(ledger), accounts, price_lamports) {
            Some(e) => r matches Err(x) && x == e && *final(ledger) == *old(ledger),
            None => {
                let mint = accounts.ticket_mint;
                &&& r matches Ok(t) && t@ == seq![
                    Transfer::MoveTicket {
                        mint,
                        source: Holder::Wallet(accounts.seller),
                        dest: Holder::Escrow(mint),
                    },
                ]
                &&& final(ledger).listings@ == old(ledger).listings@.push(
                    (Listing {
                        seller: accounts.seller,
                        event: accounts.event,
                        ticket_mint: mint,
                        price_lamports,
                    }),
                )
                &&& final(ledger).tickets@ == old(ledger).tickets@.update(
                    old(ledger).ticket_pos(mint),
                    (Ticket { mint, owner: Holder::Escrow(mint) }),
                )
                &&& final(ledger).events@ == old(ledger).events@
            },
        },
{
    if price_lamports == 0 {
        return Err(ErrorCode::InvalidPrice);
    }
    if ledger.find_event(accounts.event).is_none() {
        return Err(ErrorCode::NotFound);
    }
    let mint = accounts.ticket_mint;
    let tpos = match ledger.find_ticket(mint) {
        Some(p) => p,
        None => {
            return Err(ErrorCode::NotFound);
        },
    };
    if ledger.find_listing(mint).is_some() {
        return Err(ErrorCode::AlreadyExists);
    }
    if ledger.tickets[tpos].owner != Holder::Wallet(accounts.seller) {
        return Err(ErrorCode::NotTicketHolder);
    }
    let ghost before = *ledger;
    ledger.tickets.set(tpos, Ticket { mint, owner: Holder::Escrow(mint) });
    ledger.listings.push(
        Listing { seller: accounts.seller, event: accounts.event, ticket_mint: mint, price_lamports },
    );
    proof {
        assert(forall|i: int| 0 <= i < before.tickets@.len() ==> ledger.tickets@[i].mint == before.tickets@[i].mint);
        assert(forall|k: int| 0 <= k < before.listings@.len() ==> ledger.listings@[k] == before.listings@[k]);
        assert(forall|m: MintId| ledger.has_ticket(m) == before.has_ticket(m));
        let last = before.listings@.len() as int;
        assert(ledger.listings@[last].ticket_mint == mint);
        assert(ledger.has_listing(mint));
        assert(forall|m: MintId| m != mint ==> ledger.has_listing(m) == before.has_listing(m));
    }
    let mut transfers: Vec<Transfer> = Vec::new();
    transfers.push(
        Transfer::MoveTicket { mint, source: Holder::Wallet(accounts.seller), dest: Holder::Escrow(mint) },
    );
    Ok(transfers)
}

/// Closes the open listing of ticket `mint`, at position `lpos`, and hands the
/// ticket from escrow to the wallet `to`.
fn release_escrow(ledger: &mut Ledger, mint: MintId, lpos: usize, to: Key)
    requires
        old(ledger).wf(),
        old(ledger).has_listing(mint),
        lpos == old(ledger).listing_pos(mint),
    ensures
        final(ledger).wf(),
        !final(ledger).has_listing(mint),
        final(ledger).has_ticket(mint),
        final(ledger).holder_of(mint) == Holder::Wallet(to),
        final(ledger).listings@ == old(ledger).listings@.remove(lpos as int),
        final(ledger).tickets@ == old(ledger).tickets@.update(
            old(ledger).ticket_pos(mint),
            (Ticket { mint, owner: Holder::Wallet(to) }),
        ),
        final(ledger).events@ == old(ledger).events@,
{
    proof {
        let k = old(ledger).listing_pos(mint);
        assert(old(ledger).has_ticket(old(ledger).listings@[k].ticket_mint));
    }
    if let Some(tpos) = ledger.find_ticket(mint) {
        let ghost before = *ledger;
        ledger.tickets.set(tpos, Ticket { mint, owner: Holder::Wallet(to) });
        ledger.listings.remove(lpos);
        proof {
            before.listings@.remove_ensures(lpos as int);
            let ls = before.listings@;
            assert(ls[lpos as int].ticket_mint == mint);
            assert(forall|i: int| 0 <= i < before.tickets@.len() ==> ledger.tickets@[i].mint == before.tickets@[i].mint);
            assert(forall|m: MintId| ledger.has_ticket(m) == before.has_ticket(m));
            assert forall|m: MintId| m != mint implies ledger.has_listing(m) == before.has_listing(m) by {
                if before.has_listing(m) {
                    let k = choose|k: int| 0 <= k < ls.len() && ls[k].ticket_mint == m;
                    if k < lpos {
                        assert(ledger.listings@[k].ticket_mint == m);
                    } else {
                        assert(k != lpos);
                        assert(ledger.listings@[k - 1].ticket_mint == m);
                    }
                }
            }
            if ledger.has_listing(mint) {
                let j = choose|j: int| 0 <= j < ledger.listings@.len() && ledger.listings@[j].ticket_mint == mint;
                if j < lpos {
                    assert(ls[j].ticket_mint != ls[lpos as int].ticket_mint);
                } else {
                    assert(ls[lpos as int].ticket_mint != ls[j + 1].ticket_mint);
                }
            }
            assert forall|i: int, j: int| 0 <= i < j < ledger.listings@.len() implies ledger.listings@[i].ticket_mint != ledger.listings@[j].ticket_mint by {
                let oi = if i < lpos { i } else { i + 1 };
                let oj = if j < lpos { j } else { j + 1 };
                assert(ls[oi].ticket_mint != ls[oj].ticket_mint);
            }
        }
    }
}

/// Parties to `buy_resale`.
#[derive(Clone, Copy, Debug, PartialEq, Eq, Structural)]
pub struct BuyResale {
    pub buyer: Key,
    pub seller: Key,
    pub organizer: Key,
    pub platform: Key,
    pub event: EventId,
    pub ticket_mint: MintId,
}

/// The error with which `buy_resale` refuses, or `None` where it succeeds.
pub open spec fn buy_resale_error(l: Ledger, accounts: BuyResale) -> Option<ErrorCode> {
    let listing = l.listing_of(accounts.ticket_mint);
    if !l.has_listing(accounts.ticket_mint) || !l.has_event(accounts.event) {
        Some(ErrorCode::NotFound)
    } else if listing.event != accounts.event {
        Some(ErrorCode::InvalidEvent)
    } else if listing.seller != accounts.seller {
        Some(ErrorCode::InvalidSeller)
    } else if l.event_of(accounts.event).organizer != accounts.organizer {
        Some(ErrorCode::InvalidOrganizer)
    } else {
        None
    }
}

/// Buys a listed ticket: the buyer pays forty percent of the price (rounded
/// down) to the organizer, as much to the seller and the rest to the
/// platform; the ticket leaves escrow for the buyer, and the listing and its
/// escrow close, their deposits going to the seller.
pub fn buy_resale(ledger: &mut Ledger, accounts: BuyResale) -> (r: Result<Vec<Transfer>, ErrorCode>)
    requires
        old(ledger).wf(),
    ensures
        final(ledger).wf(),
        match buy_resale_error(*old(ledger), accounts) {
            Some(e) => r matches Err(x) && x == e && *final(ledger) == *old(ledger),
            None => {
                let mint = accounts.ticket_mint;
                let price = old(ledger).listing_of(mint).price_lamports;
                let share = forty_percent(price as int) as u64;
                &&& r matches Ok(t) && t@ == seq![
                    Transfer::Lamports { from: accounts.buyer, to: accounts.organizer, amount: share },
                    Transfer::Lamports { from: accounts.buyer, to: accounts.seller, amount: share },
                    Transfer::Lamports {
                        from: accounts.buyer,
                        to: accounts.platform,
                        amount: (price - 2 * share) as u64,
                    },
                    Transfer::MoveTicket {
                        mint,
                        source: Holder::Escrow(mint),
                        dest: Holder::Wallet(accounts.buyer),
                    },
                    Transfer::CloseEscrow { mint, deposit_to: accounts.seller },
                ]
                &&& !final(ledger).has_listing(mint)
                &&& final(ledger).holder_of(mint) == Holder::Wallet(accounts.buyer)
                &&& final(ledger).listings@ == old(ledger).listings@.remove(
                    old(ledger).listing_pos(mint),
                )
                &&& final(ledger).tickets@ == old(ledger).tickets@.update(
                    old(ledger).ticket_pos(mint),
                    (Ticket { mint, owner: Holder::Wallet(accounts.buyer) }),
                )
                &&& final(ledger).events@ == old(ledger).events@
            },
        },
{
    let mint = accounts.ticket_mint;
    let lpos = match ledger.find_listing(mint) {
        Some(p) => p,
        None => {
            return Err(ErrorCode::NotFound);
        },
    };
    let epos = match ledger.find_event(accounts.event) {
        Some(p) => p,
        None => {
            return Err(ErrorCode::NotFound);
        },
    };
    let listing = ledger.listings[lpos];
    if listing.event != accounts.event {
        return Err(ErrorCode::InvalidEvent);
    }
    if listing.seller != accounts.seller {
        return Err(ErrorCode::InvalidSeller);
    }
    if ledger.events[epos].organizer != accounts.organizer {
        return Err(ErrorCode::InvalidOrganizer);
    }
    let shares = resale_split(listing.price_lamports);
    release_escrow(ledger, mint, lpos, accounts.buyer);
    let mut transfers: Vec<Transfer> = Vec::new();
    transfers.push(Transfer::Lamports { from: accounts.buyer, to: accounts.organizer, amount: shares.artist });
    transfers.push(Transfer::Lamports { from: accounts.buyer, to: accounts.seller, amount: shares.seller });
    transfers.push(Transfer::Lamports { from: accounts.buyer, to: accounts.platform, amount: shares.platform });
    transfers.push(
        Transfer::MoveTicket { mint, source: Holder::Escrow(mint), dest: Holder::Wallet(accounts.buyer) },
    );
    transfers.push(Transfer::CloseEscrow { mint, deposit_to: accounts.seller });
    Ok(transfers)
}

/// Parties to `cancel_listing`.
#[derive(Clone, Copy, Debug, PartialEq, Eq, Structural)]
pub struct CancelListing {
    pub seller: Key,
    pub ticket_mint: MintId,
}

/// The error with which `cancel_listing` refuses, or `None` where it succeeds.
pub open spec fn cancel_listing_error(l: Ledger, accounts: CancelListing) -> Option<ErrorCode> {
    if !l.has_listing(accounts.ticket_mint) {
        Some(ErrorCode::NotFound)
    } else if l.listing_of(accounts.ticket_mint).seller != accounts.seller {
        Some(ErrorCode::InvalidSeller)
    } else {
        None
    }
}

/// Withdraws a listing: the ticket returns from escrow to the seller, and the
/// listing and its escrow close, their deposits going to the seller.
pub fn cancel_listing(ledger: &mut Ledger, accounts: CancelListing) -> (r: Result<
    Vec<Transfer>,
    ErrorCode,
>)
    requires
        old(ledger).wf(),
    ensures
        final(ledger).wf(),
        match cancel_listing_error(*old(ledger), accounts) {
            Some(e) => r matches Err(x) && x == e && *final(ledger) == *old(ledger),
            None => {
                let mint = accounts.ticket_mint;
                &&& r matches Ok(t) && t@ == seq![
                    Transfer::MoveTicket {
                        mint,
                        source: Holder::Escrow(mint),
                        dest: Holder::Wallet(accounts.seller),
                    },
                    Transfer::CloseEscrow { mint, deposit_to: accounts.seller },
                ]
                &&& !final(ledger).has_listing(mint)
                &&& final(ledger).holder_of(mint) == Holder::Wallet(accounts.seller)
                &&& final(ledger).listings@ == old(ledger).listings@.remove(
                    old(ledger).listing_pos(mint),
                )
                &&& final(ledger).tickets@ == old(ledger).tickets@.update(
                    old(ledger).ticket_pos(mint),
                    (Ticket { mint, owner: Holder::Wallet(accounts.seller) }),
                )
                &&& final(ledger).events@ == old(ledger).events@
            },
        },
{
    let mint = accounts.ticket_mint;
    let lpos = match ledger.find_listing(mint) {
        Some(p) => p,
        None => {
            return Err(ErrorCode::NotFound);
        },
    };
    if ledger.listings[lpos].seller != accounts.seller {
        return Err(ErrorCode::InvalidSeller);
    }
    release_escrow(ledger, mint, lpos, accounts.seller);
    let mut transfers: Vec<Transfer> = Vec::new();
    transfers.push(
        Transfer::MoveTicket { mint, source: Holder::Escrow(mint), dest: Holder::Wallet(accounts.seller) },
    );
    transfers.push(Transfer::CloseEscrow { mint, deposit_to: accounts.seller });
    Ok(transfers)
}

} // verus!
