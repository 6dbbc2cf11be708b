use vstd::prelude::*;

verus! {

/// How the price of a resale is divided.
#[derive(Clone, Copy, Debug, PartialEq, Eq, Structural)]
pub struct Shares {
    pub artist: u64,
    pub seller: u64,
    pub platform: u64,
}

/// Forty percent of `price`, rounded down.
pub open spec fn forty_percent(price: int) -> int {
    price * 40 / 100
}

/// Organizer and seller each get forty percent of the price, rounded down;
/// the platform gets what remains.
pub fn resale_split(price: u64) -> (r: Shares)
    ensures
        r.artist == forty_percent(price as int),
        r.seller == forty_percent(price as int),
        r.platform == price - 2 * forty_percent(price as int),
        r.artist + r.seller + r.platform == price,
{
    let artist = ((price as u128) * 40 / 100) as u64;
    assert(forty_percent(price as int) <= price) by (nonlinear_arith);
    assert(forty_percent(price as int) >= 0) by (nonlinear_arith);
    let seller = artist;
    let platform = price - artist - seller;
    Shares { artist, seller, platform }
}

/// The three shares of a resale always add up to its price exactly.
pub proof fn lemma_split_total(price: u64)
    ensures
        forty_percent(price as int) + forty_percent(price as int) + (price - 2
            * forty_percent(price as int)) == price,
        0 <= 2 * forty_percent(price as int) <= price,
{
    assert(0 <= forty_percent(price as int) && 2 * forty_percent(price as int) <= price)
        by (nonlinear_arith);
}

} // verus!
