use ticketchain::{
    buy_resale, buy_ticket, cancel_listing, close_event, create_event, derive_event_id,
    derive_ticket_mint, list_for_resale, resale_split, BuyResale, BuyTicket, CancelListing,
    CloseEvent, CreateEvent, ErrorCode, EventId, Holder, Key, Ledger, ListForResale, MintId, Transfer,
};

const ORGANIZER: Key = Key { hi: 0, lo: 1 };
const BUYER: Key = Key { hi: 0, lo: 2 };
const SELLER: Key = Key { hi: 0, lo: 3 };
const PLATFORM: Key = Key { hi: 0, lo: 4 };
const RESALE_BUYER: Key = Key { hi: 0, lo: 5 };

fn new_event(ledger: &mut Ledger, nonce: u64, price: u64, supply: u32) -> EventId {
    create_event(
        ledger,
        CreateEvent { organizer: ORGANIZER },
        nonce,
        "Concert".to_string(),
        "Arena".to_string(),
        1_700_000_000,
        "General".to_string(),
        price,
        supply,
    )
    .unwrap()
}

fn buy(ledger: &mut Ledger, event: EventId, buyer: Key) -> Result<MintId, ErrorCode> {
    buy_ticket(ledger, BuyTicket { buyer, organizer: ORGANIZER, event }).map(|(m, _)| m)
}

fn holder(ledger: &Ledger, mint: MintId) -> Option<Holder> {
    ledger.tickets.iter().find(|t| t.mint == mint).map(|t| t.owner)
}

fn resale(event: EventId, mint: MintId, seller: Key) -> BuyResale {
    BuyResale {
        buyer: RESALE_BUYER,
        seller,
        organizer: ORGANIZER,
        platform: PLATFORM,
        event,
        ticket_mint: mint,
    }
}

#[test]
fn full_scenario_supply_two() {
    let mut ledger = Ledger::new();
    let event = new_event(&mut ledger, 7, 100, 2);
    let (m0, t0) = buy_ticket(&mut ledger, BuyTicket { buyer: SELLER, organizer: ORGANIZER, event }).unwrap();
    assert_eq!(
        t0,
        vec![
            Transfer::Lamports { from: SELLER, to: ORGANIZER, amount: 100 },
            Transfer::MintTicket { mint: m0, to: SELLER },
        ]
    );
    assert!(buy(&mut ledger, event, BUYER).is_ok());
    assert_eq!(buy(&mut ledger, event, BUYER), Err(ErrorCode::SoldOut));
    assert_eq!(m0, MintId { event, seq: 0 });

    let listed = list_for_resale(&mut ledger, ListForResale { seller: SELLER, event, ticket_mint: m0 }, 50).unwrap();
    assert_eq!(
        listed,
        vec![Transfer::MoveTicket { mint: m0, source: Holder::Wallet(SELLER), dest: Holder::Escrow(m0) }]
    );
    assert_eq!(holder(&ledger, m0), Some(Holder::Escrow(m0)));

    let t = buy_resale(&mut ledger, resale(event, m0, SELLER)).unwrap();
    assert_eq!(
        t,
        vec![
            Transfer::Lamports { from: RESALE_BUYER, to: ORGANIZER, amount: 20 },
            Transfer::Lamports { from: RESALE_BUYER, to: SELLER, amount: 20 },
            Transfer::Lamports { from: RESALE_BUYER, to: PLATFORM, amount: 10 },
            Transfer::MoveTicket { mint: m0, source: Holder::Escrow(m0), dest: Holder::Wallet(RESALE_BUYER) },
            Transfer::CloseEscrow { mint: m0, deposit_to: SELLER },
        ]
    );
    assert_eq!(holder(&ledger, m0), Some(Holder::Wallet(RESALE_BUYER)));
    assert!(ledger.listings.is_empty());
}

#[test]
fn zero_price_listing_is_refused() {
    let mut ledger = Ledger::new();
    let event = new_event(&mut ledger, 1, 100, 3);
    let mint = buy(&mut ledger, event, SELLER).unwrap();
    let r = list_for_resale(&mut ledger, ListForResale { seller: SELLER, event, ticket_mint: mint }, 0);
    assert_eq!(r, Err(ErrorCode::InvalidPrice));
    assert_eq!(holder(&ledger, mint), Some(Holder::Wallet(SELLER)));
    assert!(ledger.listings.is_empty());
}

#[test]
fn exactly_supply_tickets_sell() {
    let mut ledger = Ledger::new();
    let event = new_event(&mut ledger, 2, 10, 5);
    for i in 0..5u32 {
        assert_eq!(buy(&mut ledger, event, BUYER), Ok(MintId { event, seq: i }));
        assert!(ledger.events[0].sold <= ledger.events[0].supply);
    }
    assert_eq!(buy(&mut ledger, event, BUYER), Err(ErrorCode::SoldOut));
    assert_eq!(ledger.events[0].sold, 5);
    assert_eq!(ledger.tickets.len(), 5);
}

#[test]
fn split_sums_to_price() {
    let s = resale_split(7);
    assert_eq!((s.artist, s.seller, s.platform), (2, 2, 3));
    let s = resale_split(1);
    assert_eq!((s.artist, s.seller, s.platform), (0, 0, 1));
    let s = resale_split(100);
    assert_eq!((s.artist, s.seller, s.platform), (40, 40, 20));
    let s = resale_split(u64::MAX);
    assert_eq!(s.artist as u128 + s.seller as u128 + s.platform as u128, u64::MAX as u128);
    assert_eq!(s.artist, ((u64::MAX as u128) * 40 / 100) as u64);
    for p in 1..200u64 {
        let s = resale_split(p);
        assert_eq!(s.artist + s.seller + s.platform, p);
    }
}

#[test]
fn mints_of_one_event_are_distinct() {
    let mut ledger = Ledger::new();
    let event = new_event(&mut ledger, 3, 1, 4);
    let mints: Vec<MintId> = (0..4).map(|_| buy(&mut ledger, event, BUYER).unwrap()).collect();
    for i in 0..mints.len() {
        for j in 0..mints.len() {
            assert_eq!(i == j, mints[i] == mints[j]);
        }
    }
    assert_ne!(derive_ticket_mint(event, 0), derive_ticket_mint(event, 1));
    assert_eq!(derive_event_id(ORGANIZER, 3), event);
}

#[test]
fn second_listing_fails_until_closed() {
    let mut ledger = Ledger::new();
    let event = new_event(&mut ledger, 4, 100, 2);
    let mint = buy(&mut ledger, event, SELLER).unwrap();
    let list = ListForResale { seller: SELLER, event, ticket_mint: mint };
    assert!(list_for_resale(&mut ledger, list, 30).is_ok());
    assert_eq!(list_for_resale(&mut ledger, list, 40), Err(ErrorCode::AlreadyExists));
    assert_eq!(ledger.listings.len(), 1);
    assert_eq!(ledger.listings[0].price_lamports, 30);

    cancel_listing(&mut ledger, CancelListing { seller: SELLER, ticket_mint: mint }).unwrap();
    assert!(list_for_resale(&mut ledger, list, 40).is_ok());
    assert_eq!(ledger.listings[0].price_lamports, 40);

    buy_resale(&mut ledger, resale(event, mint, SELLER)).unwrap();
    let relist = ListForResale { seller: RESALE_BUYER, event, ticket_mint: mint };
    assert!(list_for_resale(&mut ledger, relist, 60).is_ok());
}

#[test]
fn cancel_returns_ticket_and_buy_then_fails() {
    let mut ledger = Ledger::new();
    let event = new_event(&mut ledger, 5, 100, 1);
    let mint = buy(&mut ledger, event, SELLER).unwrap();
    list_for_resale(&mut ledger, ListForResale { seller: SELLER, event, ticket_mint: mint }, 80).unwrap();
    let t = cancel_listing(&mut ledger, CancelListing { seller: SELLER, ticket_mint: mint }).unwrap();
    assert_eq!(
        t,
        vec![
            Transfer::MoveTicket { mint, source: Holder::Escrow(mint), dest: Holder::Wallet(SELLER) },
            Transfer::CloseEscrow { mint, deposit_to: SELLER },
        ]
    );
    assert_eq!(holder(&ledger, mint), Some(Holder::Wallet(SELLER)));
    assert!(ledger.listings.is_empty());
    assert_eq!(buy_resale(&mut ledger, resale(event, mint, SELLER)), Err(ErrorCode::NotFound));
    assert_eq!(holder(&ledger, mint), Some(Holder::Wallet(SELLER)));
}

#[test]
fn create_event_validation() {
    let mut ledger = Ledger::new();
    let org = CreateEvent { organizer: ORGANIZER };
    let ok = |s: usize| "a".repeat(s);
    assert_eq!(
        create_event(&mut ledger, org, 1, ok(65), ok(1), 0, ok(1), 1, 1),
        Err(ErrorCode::TitleTooLong)
    );
    assert_eq!(
        create_event(&mut ledger, org, 1, ok(64), ok(65), 0, ok(1), 1, 1),
        Err(ErrorCode::VenueTooLong)
    );
    assert_eq!(
        create_event(&mut ledger, org, 1, ok(64), ok(64), 0, ok(33), 1, 1),
        Err(ErrorCode::TierNameTooLong)
    );
    assert_eq!(
        create_event(&mut ledger, org, 1, ok(64), ok(64), 0, ok(32), 1, 0),
        Err(ErrorCode::InvalidSupply)
    );
    // Thirty-three two-byte characters are sixty-six bytes.
    assert_eq!(
        create_event(&mut ledger, org, 1, "é".repeat(33), ok(1), 0, ok(1), 1, 1),
        Err(ErrorCode::TitleTooLong)
    );
    assert!(ledger.events.is_empty());
    let id = create_event(&mut ledger, org, 1, "é".repeat(32), ok(64), -5, ok(32), 9, u32::MAX).unwrap();
    assert_eq!(id, EventId { organizer: ORGANIZER, nonce: 1 });
    assert_eq!(ledger.events[0].sold, 0);
    assert_eq!(ledger.events[0].date_ts, -5);
    assert_eq!(
        create_event(&mut ledger, org, 1, ok(1), ok(1), 0, ok(1), 1, 1),
        Err(ErrorCode::AlreadyExists)
    );
    assert!(create_event(&mut ledger, CreateEvent { organizer: Key { hi: 2, lo: 0 } }, 1, ok(1), ok(1), 0, ok(1), 1, 1).is_ok());
    assert_eq!(ledger.events.len(), 2);
}

#[test]
fn buy_ticket_errors() {
    let mut ledger = Ledger::new();
    let event = new_event(&mut ledger, 6, 100, 2);
    let missing = EventId { organizer: ORGANIZER, nonce: 99 };
    assert_eq!(buy(&mut ledger, missing, BUYER), Err(ErrorCode::NotFound));
    let wrong = buy_ticket(&mut ledger, BuyTicket { buyer: BUYER, organizer: Key { hi: 42, lo: 1 }, event });
    assert_eq!(wrong.map(|(m, _)| m), Err(ErrorCode::InvalidOrganizer));
    assert_eq!(ledger.events[0].sold, 0);
    assert!(ledger.tickets.is_empty());
}

#[test]
fn reopened_event_cannot_reissue_a_mint() {
    let mut ledger = Ledger::new();
    let event = new_event(&mut ledger, 8, 100, 2);
    buy(&mut ledger, event, BUYER).unwrap();
    assert_eq!(close_event(&mut ledger, CloseEvent { organizer: Key { hi: 1, lo: 1 }, event }), Err(ErrorCode::InvalidOrganizer));
    close_event(&mut ledger, CloseEvent { organizer: ORGANIZER, event }).unwrap();
    assert!(ledger.events.is_empty());
    assert_eq!(ledger.tickets.len(), 1);
    assert_eq!(close_event(&mut ledger, CloseEvent { organizer: ORGANIZER, event }), Err(ErrorCode::NotFound));
    let again = new_event(&mut ledger, 8, 100, 2);
    assert_eq!(again, event);
    assert_eq!(buy(&mut ledger, event, BUYER), Err(ErrorCode::AlreadyExists));
}

#[test]
fn listing_and_resale_errors() {
    let mut ledger = Ledger::new();
    let event = new_event(&mut ledger, 10, 100, 3);
    let other = new_event(&mut ledger, 11, 100, 3);
    let mint = buy(&mut ledger, event, SELLER).unwrap();
    let unknown = MintId { event, seq: 2 };
    let list = |seller, ticket_mint| ListForResale { seller, event, ticket_mint };
    assert_eq!(list_for_resale(&mut ledger, list(SELLER, unknown), 5), Err(ErrorCode::NotFound));
    let no_event = ListForResale { seller: SELLER, event: EventId { organizer: Key { hi: 0, lo: 0 }, nonce: 0 }, ticket_mint: mint };
    assert_eq!(list_for_resale(&mut ledger, no_event, 5), Err(ErrorCode::NotFound));
    assert_eq!(list_for_resale(&mut ledger, list(BUYER, mint), 5), Err(ErrorCode::NotTicketHolder));
    list_for_resale(&mut ledger, list(SELLER, mint), 5).unwrap();

    assert_eq!(buy_resale(&mut ledger, resale(other, mint, SELLER)), Err(ErrorCode::InvalidEvent));
    assert_eq!(buy_resale(&mut ledger, resale(event, mint, BUYER)), Err(ErrorCode::InvalidSeller));
    let mut bad_org = resale(event, mint, SELLER);
    bad_org.organizer = Key { hi: 7, lo: 7 };
    assert_eq!(buy_resale(&mut ledger, bad_org), Err(ErrorCode::InvalidOrganizer));
    assert_eq!(
        cancel_listing(&mut ledger, CancelListing { seller: BUYER, ticket_mint: mint }),
        Err(ErrorCode::InvalidSeller)
    );
    assert_eq!(holder(&ledger, mint), Some(Holder::Escrow(mint)));
    assert_eq!(ledger.listings.len(), 1);
    assert_eq!(
        cancel_listing(&mut ledger, CancelListing { seller: SELLER, ticket_mint: unknown }),
        Err(ErrorCode::NotFound)
    );
}

#[test]
fn smallest_resale_goes_to_platform() {
    let mut ledger = Ledger::new();
    let event = new_event(&mut ledger, 12, 100, 1);
    let mint = buy(&mut ledger, event, SELLER).unwrap();
    list_for_resale(&mut ledger, ListForResale { seller: SELLER, event, ticket_mint: mint }, 1).unwrap();
    let t = buy_resale(&mut ledger, resale(event, mint, SELLER)).unwrap();
    assert_eq!(t[0], Transfer::Lamports { from: RESALE_BUYER, to: ORGANIZER, amount: 0 });
    assert_eq!(t[1], Transfer::Lamports { from: RESALE_BUYER, to: SELLER, amount: 0 });
    assert_eq!(t[2], Transfer::Lamports { from: RESALE_BUYER, to: PLATFORM, amount: 1 });
}
