use vstd::prelude::*;
use crate::ids::{EventId, MintId};
use crate::ops::{
    buy_resale_error, buy_ticket_error, cancel_listing_error, list_for_resale_error, sold_one_more,
    BuyResale, BuyTicket, CancelListing, ListForResale,
};
use crate::state::{ErrorCode, Holder, Ledger, Ticket};

verus! {

/// No ticket of event `id` exists at or past the number it has sold: every
/// mint it will issue is still free.
pub open spec fn unsold_mints_free(l: Ledger, id: EventId) -> bool {
    forall|s: u32| s >= l.event_of(id).sold ==> !#[trigger] l.has_ticket(MintId { event: id, seq: s })
}

/// A newly created event has sold nothing, and where no ticket of its address
/// exists yet, all of its mints are free.
pub proof fn lemma_new_event_mints_free(l0: Ledger, l1: Ledger, id: EventId)
    requires
        l1.wf(),
        l1.events@.len() == l0.events@.len() + 1,
        l1.events@.last().key() == id,
        l1.events@.last().sold == 0,
        l1.tickets@ == l0.tickets@,
        forall|s: u32| !#[trigger] l0.has_ticket(MintId { event: id, seq: s }),
    ensures
        l1.has_event(id),
        l1.event_of(id).sold == 0,
        unsold_mints_free(l1, id),
{
    let last = l1.events@.len() - 1;
    assert(l1.events@[last].key() == id);
    let p = l1.event_pos(id);
    if p < last {
        assert(l1.events@[p].key() != l1.events@[last].key());
    }
    assert forall|s: u32| s >= l1.event_of(id).sold implies !#[trigger] l1.has_ticket(
        MintId { event: id, seq: s },
    ) by {
        assert(!l0.has_ticket(MintId { event: id, seq: s }));
    }
}

/// An event never sells more than its supply. Where its unsold mints are
/// free, a purchase by its organizer's terms succeeds exactly while fewer
/// than `supply` tickets are sold, and fails with `SoldOut` once all are.
pub proof fn lemma_sold_out_exactly_at_supply(l: Ledger, accounts: BuyTicket)
    requires
        l.wf(),
        l.has_event(accounts.event),
        l.event_of(accounts.event).organizer == accounts.organizer,
        unsold_mints_free(l, accounts.event),
    ensures
        l.event_of(accounts.event).sold <= l.event_of(accounts.event).supply,
        l.event_of(accounts.event).sold < l.event_of(accounts.event).supply ==> buy_ticket_error(
            l,
            accounts,
        ) is None,
        l.event_of(accounts.event).sold == l.event_of(accounts.event).supply <==> buy_ticket_error(
            l,
            accounts,
        ) == Some(ErrorCode::SoldOut),
{
    let e = l.event_of(accounts.event);
    assert(!l.has_ticket(MintId { event: accounts.event, seq: e.sold }));
}

/// A successful purchase raises the event's sold count by one, leaves its
/// supply alone, and keeps its unsold mints free; so from a new event,
/// exactly `supply` purchases succeed.
pub proof fn lemma_purchase_keeps_mints_free(l0: Ledger, l1: Ledger, accounts: BuyTicket)
    requires
        l0.wf(),
        l1.wf(),
        buy_ticket_error(l0, accounts) is None,
        unsold_mints_free(l0, accounts.event),
        l1.events@ == l0.events@.update(
            l0.event_pos(accounts.event),
            sold_one_more(l0.event_of(accounts.event)),
        ),
        l1.tickets@ == l0.tickets@.push(
            (Ticket {
                mint: MintId { event: accounts.event, seq: l0.event_of(accounts.event).sold },
                owner: Holder::Wallet(accounts.buyer),
            }),
        ),
    ensures
        l1.has_event(accounts.event),
        l1.event_of(accounts.event).sold == l0.event_of(accounts.event).sold + 1,
        l1.event_of(accounts.event).supply == l0.event_of(accounts.event).supply,
        unsold_mints_free(l1, accounts.event),
{
    let id = accounts.event;
    let p = l0.event_pos(id);
    assert(l1.events@[p].key() == id);
    let q = l1.event_pos(id);
    if q < p {
        assert(l1.events@[q].key() != l1.events@[p].key());
    } else if q > p {
        assert(l1.events@[p].key() != l1.events@[q].key());
    }
    let k = l0.event_of(id).sold;
    assert forall|s: u32| s >= l1.event_of(id).sold implies !#[trigger] l1.has_ticket(MintId { event: id, seq: s }) by {
        assert(!l0.has_ticket(MintId { event: id, seq: s }));
        if l1.has_ticket(MintId { event: id, seq: s }) {
            let i = choose|i: int|
                0 <= i < l1.tickets@.len() && l1.tickets@[i].mint == MintId { event: id, seq: s };
            if i < l0.tickets@.len() {
                assert(l0.tickets@[i].mint == MintId { event: id, seq: s });
            }
        }
    }
}

/// Once the listing of a ticket is cancelled, the seller holds the ticket
/// again, a purchase of that listing fails with `NotFound`, and the seller
/// can list the ticket anew; while it was open, listing it again failed with
/// `AlreadyExists`.
pub proof fn lemma_after_cancel(
    l0: Ledger,
    l1: Ledger,
    cancel: CancelListing,
    buy: BuyResale,
    relist: ListForResale,
    price_lamports: u64,
)
    requires
        l0.wf(),
        l1.wf(),
        cancel_listing_error(l0, cancel) is None,
        !l1.has_listing(cancel.ticket_mint),
        l1.holder_of(cancel.ticket_mint) == Holder::Wallet(cancel.seller),
        l1.tickets@ == l0.tickets@.update(
            l0.ticket_pos(cancel.ticket_mint),
            (Ticket { mint: cancel.ticket_mint, owner: Holder::Wallet(cancel.seller) }),
        ),
        l1.events@ == l0.events@,
        buy.ticket_mint == cancel.ticket_mint,
        relist.ticket_mint == cancel.ticket_mint,
        relist.seller == cancel.seller,
        l0.has_event(relist.event),
        price_lamports > 0,
    ensures
        list_for_resale_error(l0, relist, price_lamports) == Some(ErrorCode::AlreadyExists),
        buy_resale_error(l1, buy) == Some(ErrorCode::NotFound),
        list_for_resale_error(l1, relist, price_lamports) is None,
{
    let m = cancel.ticket_mint;
    let k = l0.listing_pos(m);
    assert(l0.has_ticket(l0.listings@[k].ticket_mint));
    let p = l0.ticket_pos(m);
    assert(l1.tickets@[p].mint == m);
    assert(l1.has_ticket(m));
    assert(l1.has_event(relist.event));
}

/// Once a listed ticket is sold, the buyer holds it and the listing is gone,
/// so the buyer can list it in turn; while it was open, listing it again
/// failed with `AlreadyExists`.
pub proof fn lemma_after_resale(
    l0: Ledger,
    l1: Ledger,
    buy: BuyResale,
    relist: ListForResale,
    price_lamports: u64,
)
    requires
        l0.wf(),
        l1.wf(),
        buy_resale_error(l0, buy) is None,
        !l1.has_listing(buy.ticket_mint),
        l1.holder_of(buy.ticket_mint) == Holder::Wallet(buy.buyer),
        l1.tickets@ == l0.tickets@.update(
            l0.ticket_pos(buy.ticket_mint),
            (Ticket { mint: buy.ticket_mint, owner: Holder::Wallet(buy.buyer) }),
        ),
        l1.events@ == l0.events@,
        relist.ticket_mint == buy.ticket_mint,
        relist.seller == buy.buyer,
        l0.has_event(relist.event),
        price_lamports > 0,
    ensures
        list_for_resale_error(l0, relist, price_lamports) == Some(ErrorCode::AlreadyExists),
        list_for_resale_error(l1, relist, price_lamports) is None,
{
    let m = buy.ticket_mint;
    let k = l0.listing_pos(m);
    assert(l0.has_ticket(l0.listings@[k].ticket_mint));
    let p = l0.ticket_pos(m);
    assert(l1.tickets@[p].mint == m);
    assert(l1.has_ticket(m));
    assert(l1.has_event(relist.event));
}

} // verus!
