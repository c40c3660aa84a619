//! Instrument identifiers: mapping between the chart data source's symbol
//! names and the live feed's, and the rule for starting the live stream.

use vstd::prelude::*;

verus! {

use vstd::string::StringSliceAdditionalSpecFns;

/// Byte-for-byte equality of two slices.
pub fn bytes_eq(a: &[u8], b: &[u8]) -> (r: bool)
    ensures
        r == (a@ == b@),
{
    if a.len() != b.len() {
        return false;
    }
    let mut k: usize = 0;
    while k < a.len()
        invariant
            a@.len() == b@.len(),
            k <= a@.len(),
            forall|m: int| 0 <= m < k ==> a@[m] == b@[m],
        decreases a@.len() - k,
    {
        if a[k] != b[k] {
            return false;
        }
        k = k + 1;
    }
    proof {
        assert(a@ =~= b@);
    }
    true
}

/// Maps a chart symbol to the live feed's name for the same instrument:
/// the handful of indices and crypto pairs are renamed, every other
/// symbol passes through unchanged.
pub fn yahoo_to_finnhub_symbol<'a>(yahoo_symbol: &'a str) -> (r: &'a str)
    ensures
        r.spec_bytes() == (if yahoo_symbol.spec_bytes() == "^GSPC".spec_bytes() {
            "SPX".spec_bytes()
        } else if yahoo_symbol.spec_bytes() == "^DJI".spec_bytes() {
            "DJI".spec_bytes()
        } else if yahoo_symbol.spec_bytes() == "^IXIC".spec_bytes() {
            "IXIC".spec_bytes()
        } else if yahoo_symbol.spec_bytes() == "^VIX".spec_bytes() {
            "VIX".spec_bytes()
        } else if yahoo_symbol.spec_bytes() == "BTC-USD".spec_bytes() {
            "BINANCE:BTCUSDT".spec_bytes()
        } else if yahoo_symbol.spec_bytes() == "ETH-USD".spec_bytes() {
            "BINANCE:ETHUSDT".spec_bytes()
        } else {
            yahoo_symbol.spec_bytes()
        }),
{
    let yb = yahoo_symbol.as_bytes();
    if bytes_eq(yb, "^GSPC".as_bytes()) {
        "SPX"
    } else if bytes_eq(yb, "^DJI".as_bytes()) {
        "DJI"
    } else if bytes_eq(yb, "^IXIC".as_bytes()) {
        "IXIC"
    } else if bytes_eq(yb, "^VIX".as_bytes()) {
        "VIX"
    } else if bytes_eq(yb, "BTC-USD".as_bytes()) {
        "BINANCE:BTCUSDT"
    } else if bytes_eq(yb, "ETH-USD".as_bytes()) {
        "BINANCE:ETHUSDT"
    } else {
        yahoo_symbol
    }
}

/// Whether selecting this symbol starts the live stream at once: indices
/// (symbols opening with a caret) have no live trade feed, so they do not.
pub fn should_auto_start_live_mode(symbol: &str) -> (r: bool)
    ensures
        r == !(symbol.spec_bytes().len() > 0 && symbol.spec_bytes()[0] == 94),
{
    let b = symbol.as_bytes();
    !(b.len() > 0 && b[0] == 94)
}

} // verus!
