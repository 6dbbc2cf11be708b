use vstd::prelude::*;

verus! {

/// Identity of a party (organizer, buyer, seller, platform): a 32-byte public
/// key, as its high and low sixteen bytes. Only equality is ever asked of it.
#[derive(Clone, Copy, Debug, PartialEq, Eq, Structural)]
pub struct Key {
    pub hi: u128,
    pub lo: u128,
}

/// Address of an event, derived from its organizer and a caller-chosen nonce.
#[derive(Clone, Copy, Debug, PartialEq, Eq, Structural)]
pub struct EventId {
    pub organizer: Key,
    pub nonce: u64,
}

/// Address of a ticket's mint, derived from its event and the number of
/// tickets sold before it. The listing and the escrow custody record of a
/// ticket are addressed by this same value.
#[derive(Clone, Copy, Debug, PartialEq, Eq, Structural)]
pub struct MintId {
    pub event: EventId,
    pub seq: u32,
}

/// Derives the address of the event that `organizer` creates with `nonce`.
pub fn derive_event_id(organizer: Key, nonce: u64) -> (r: EventId)
    ensures
        r == (EventId { organizer, nonce }),
{
    EventId { organizer, nonce }
}

/// Derives the mint address of the ticket sold as number `seq` of `event`.
pub fn derive_ticket_mint(event: EventId, seq: u32) -> (r: MintId)
    ensures
        r == (MintId { event, seq }),
{
    MintId { event, seq }
}

/// Distinct seeds give distinct event addresses.
pub proof fn lemma_event_ids_unique(o1: Key, n1: u64, o2: Key, n2: u64)
    requires
        o1 != o2 || n1 != n2,
    ensures
        (EventId { organizer: o1, nonce: n1 }) != (EventId { organizer: o2, nonce: n2 }),
{
}

/// Two tickets of one event sold at different sequence numbers never share a
/// mint address.
pub proof fn lemma_ticket_mints_unique(event: EventId, a: u32, b: u32)
    requires
        a != b,
    ensures
        (MintId { event, seq: a }) != (MintId { event, seq: b }),
{
}

} // verus!
