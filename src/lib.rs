//! Ticket issuance and resale ledger: events with a fixed supply, one
//! non-fungible ticket per sale, and resale through an escrowed listing whose
//! proceeds are split between organizer, seller and platform.

mod ids;
mod split;
mod state;
mod ops;
mod laws;

pub use ids::{
    derive_event_id, derive_ticket_mint, lemma_event_ids_unique, lemma_ticket_mints_unique, EventId,
    Key, MintId,
};
pub use split::{forty_percent, lemma_split_total, resale_split, Shares};
pub use state::{byte_len, ErrorCode, Event, Holder, Ledger, Listing, Ticket, Transfer};
pub use ops::{
    buy_resale, buy_resale_error, buy_ticket, buy_ticket_error, cancel_listing, cancel_listing_error,
    close_event, close_event_error, create_event, create_event_error, list_for_resale,
    list_for_resale_error, sold_one_more, BuyResale, BuyTicket, CancelListing, CloseEvent,
    CreateEvent, ListForResale,
};
pub use laws::{
    lemma_after_cancel, lemma_after_resale, lemma_new_event_mints_free, lemma_purchase_keeps_mints_free,
    lemma_sold_out_exactly_at_supply, unsold_mints_free,
};
