//! Market data model: option contracts and per-expiration option chains.
//!
//! Prices and strikes are in integer cents.  Chains key their contracts by
//! whole-dollar strike, as sub-dollar strikes are not separately
//! addressable.  Rate-like fields (implied volatility, greeks) are inert
//! passive data carried in basis points or ten-thousandths.

use vstd::prelude::*;
use vstd::arithmetic::div_mod::lemma_div_is_ordered;
use crate::SECS_PER_DAY;
use crate::wf_time;

verus! {

/// Largest strike or underlying price, in cents, accepted as input.
pub const PRICE_LIMIT: i64 = 10_000_000_000;

/// Largest quote, in cents, that a well-formed contract may carry.
pub const QUOTE_LIMIT: i64 = 20_000_000_000;

/// A money amount that may appear as a quote on a contract.
pub open spec fn wf_quote(x: i64) -> bool {
    0 <= x <= QUOTE_LIMIT
}

/// Option type (call or put).
#[derive(Clone, Copy, Debug, PartialEq, Eq, Structural)]
pub enum OptionType {
    Call,
    Put,
}

/// Option price sensitivities, in ten-thousandths.
///
/// These fields are carried through from the data source and never drive
/// strike selection.
#[derive(Clone, Copy, Debug, PartialEq, Eq, Structural)]
pub struct Greeks {
    /// Delta: sensitivity to underlying price changes.
    pub delta: i64,
    /// Gamma: rate of change of delta.
    pub gamma: i64,
    /// Theta: time decay per day.
    pub theta: i64,
    /// Vega: sensitivity to implied volatility changes.
    pub vega: i64,
    /// Rho: sensitivity to interest rate changes.
    pub rho: i64,
}

impl Default for Greeks {
    fn default() -> (r: Self)
        ensures
            r == (Greeks { delta: 0, gamma: 0, theta: 0, vega: 0, rho: 0 }),
    {
        Greeks { delta: 0, gamma: 0, theta: 0, vega: 0, rho: 0 }
    }
}

/// An option contract quote.
#[derive(Clone, Debug)]
pub struct OptionsContract {
    /// Underlying symbol.
    pub underlying: String,
    /// Option type (call or put).
    pub option_type: OptionType,
    /// Strike price in cents.
    pub strike: i64,
    /// Expiration timestamp, seconds since the epoch.
    pub expiration: i64,
    /// Current bid price in cents.
    pub bid: i64,
    /// Current ask price in cents.
    pub ask: i64,
    /// Last traded price in cents.
    pub last_price: i64,
    /// Implied volatility in basis points.
    pub implied_volatility: u32,
    /// Open interest.
    pub open_interest: u32,
    /// Volume traded today.
    pub volume: u32,
    /// Price sensitivities.
    pub greeks: Greeks,
    /// Days to expiration at quote time.
    pub dte: u32,
    /// Timestamp of this quote.
    pub timestamp: i64,
}

impl OptionsContract {
    /// A contract the engine can do arithmetic on.
    pub open spec fn wf(self) -> bool {
        &&& wf_quote(self.strike)
        &&& wf_quote(self.bid)
        &&& wf_quote(self.ask)
        &&& wf_quote(self.last_price)
        &&& wf_time(self.expiration)
        &&& wf_time(self.timestamp)
    }

    /// An exact copy of this contract.
    pub fn duplicate(&self) -> (r: Self)
        ensures
            r == *self,
    {
        OptionsContract {
            underlying: self.underlying.clone(),
            option_type: self.option_type,
            strike: self.strike,
            expiration: self.expiration,
            bid: self.bid,
            ask: self.ask,
            last_price: self.last_price,
            implied_volatility: self.implied_volatility,
            open_interest: self.open_interest,
            volume: self.volume,
            greeks: self.greeks,
            dte: self.dte,
            timestamp: self.timestamp,
        }
    }
}

/// The same contract quote carrying a different quote timestamp.
pub open spec fn spec_with_timestamp(c: OptionsContract, t: i64) -> OptionsContract {
    OptionsContract {
        underlying: c.underlying,
        option_type: c.option_type,
        strike: c.strike,
        expiration: c.expiration,
        bid: c.bid,
        ask: c.ask,
        last_price: c.last_price,
        implied_volatility: c.implied_volatility,
        open_interest: c.open_interest,
        volume: c.volume,
        greeks: c.greeks,
        dte: c.dte,
        timestamp: t,
    }
}

/// Inputs for constructing a synthetic contract quote.
#[derive(Clone, Debug)]
pub struct OptionsContractParams {
    pub underlying: String,
    pub option_type: OptionType,
    /// Strike price in cents.
    pub strike: i64,
    /// Expiration timestamp, seconds since the epoch.
    pub expiration: i64,
    /// Underlying price in cents.
    pub underlying_price: i64,
    /// Implied volatility in basis points.
    pub implied_vol: u32,
    /// Risk-free rate in basis points (carried, not used).
    pub risk_free_rate: u32,
    /// Quote timestamp, seconds since the epoch.
    pub current_time: i64,
}

/// Absolute difference.
pub open spec fn spec_abs_diff(a: int, b: int) -> int {
    if a >= b {
        a - b
    } else {
        b - a
    }
}

/// Days from `current` to `expiration`, floored at zero.
pub open spec fn spec_synth_dte(expiration: int, current: int) -> int {
    if expiration >= current {
        (expiration - current) / (SECS_PER_DAY as int)
    } else {
        0
    }
}

/// Intrinsic value of an option at the given underlying price.
pub open spec fn spec_intrinsic(option_type: OptionType, strike: int, underlying: int) -> int {
    match option_type {
        OptionType::Call => if underlying >= strike {
            underlying - strike
        } else {
            0
        },
        OptionType::Put => if strike >= underlying {
            strike - underlying
        } else {
            0
        },
    }
}

/// Synthetic time value in cents: larger near the money, with a floor,
/// and only the floor once expired.
pub open spec fn spec_time_value(strike: int, underlying: int, expiration: int, current: int) -> int {
    if expiration > current {
        let tv = 300 - spec_abs_diff(strike, underlying) / 10;
        if tv >= 50 {
            tv
        } else {
            50
        }
    } else {
        50
    }
}

/// Synthetic mid price in cents, floored at one cent.
pub open spec fn spec_synth_price(
    option_type: OptionType,
    strike: int,
    underlying: int,
    expiration: int,
    current: int,
) -> int {
    let p = spec_intrinsic(option_type, strike, underlying)
        + spec_time_value(strike, underlying, expiration, current);
    if p >= 1 {
        p
    } else {
        1
    }
}

/// Synthetic bid/ask spread: three percent of price, at least one cent.
pub open spec fn spec_synth_spread(price: int) -> int {
    let s = 3 * price / 100;
    if s >= 1 {
        s
    } else {
        1
    }
}

/// Synthetic bid: price less half the spread, floored at one cent.
pub open spec fn spec_synth_bid(price: int) -> int {
    let b = price - spec_synth_spread(price) / 2;
    if b >= 1 {
        b
    } else {
        1
    }
}

/// Synthetic ask: price plus half the spread.
pub open spec fn spec_synth_ask(price: int) -> int {
    price + spec_synth_spread(price) / 2
}

impl OptionsContract {
    /// Construct a synthetic quote from a price model too simple for live
    /// trading but adequate for backtesting: intrinsic value plus a
    /// distance-dependent time value, with a proportional bid/ask spread.
    pub fn new(params: OptionsContractParams) -> (r: Self)
        requires
            0 <= params.strike <= PRICE_LIMIT,
            0 <= params.underlying_price <= PRICE_LIMIT,
            wf_time(params.expiration),
            wf_time(params.current_time),
        ensures
            r.underlying == params.underlying,
            r.option_type == params.option_type,
            r.strike == params.strike,
            r.expiration == params.expiration,
            r.bid == spec_synth_bid(
                spec_synth_price(params.option_type, params.strike as int,
                    params.underlying_price as int, params.expiration as int,
                    params.current_time as int),
            ),
            r.ask == spec_synth_ask(
                spec_synth_price(params.option_type, params.strike as int,
                    params.underlying_price as int, params.expiration as int,
                    params.current_time as int),
            ),
            r.last_price == spec_synth_price(params.option_type, params.strike as int,
                params.underlying_price as int, params.expiration as int,
                params.current_time as int),
            r.implied_volatility == params.implied_vol,
            r.open_interest == 1000,
            r.volume == 100,
            r.greeks == (Greeks { delta: 0, gamma: 0, theta: 0, vega: 0, rho: 0 }),
            r.dte == spec_synth_dte(params.expiration as int, params.current_time as int),
            r.timestamp == params.current_time,
            r.wf(),
    {
        let dte64: i64 = if params.expiration >= params.current_time {
            (params.expiration - params.current_time) / SECS_PER_DAY
        } else {
            0
        };
        let dte: u32 = dte64 as u32;

        let intrinsic: i64 = match params.option_type {
            OptionType::Call => if params.underlying_price >= params.strike {
                params.underlying_price - params.strike
            } else {
                0
            },
            OptionType::Put => if params.strike >= params.underlying_price {
                params.strike - params.underlying_price
            } else {
                0
            },
        };

        let distance: i64 = if params.strike >= params.underlying_price {
            params.strike - params.underlying_price
        } else {
            params.underlying_price - params.strike
        };
        let time_value: i64 = if params.expiration > params.current_time {
            let tv = 300 - distance / 10;
            if tv >= 50 {
                tv
            } else {
                50
            }
        } else {
            50
        };

        let raw_price: i64 = intrinsic + time_value;
        let price: i64 = if raw_price >= 1 {
            raw_price
        } else {
            1
        };

        let raw_spread: i64 = 3 * price / 100;
        let spread: i64 = if raw_spread >= 1 {
            raw_spread
        } else {
            1
        };

        let raw_bid: i64 = price - spread / 2;
        let bid: i64 = if raw_bid >= 1 {
            raw_bid
        } else {
            1
        };
        let ask: i64 = price + spread / 2;

        proof {
            lemma_div_is_ordered(3 * price as int, 3 * (PRICE_LIMIT + 300) as int, 100);
        }

        OptionsContract {
            underlying: params.underlying,
            option_type: params.option_type,
            strike: params.strike,
            expiration: params.expiration,
            bid,
            ask,
            last_price: price,
            implied_volatility: params.implied_vol,
            open_interest: 1000,
            volume: 100,
            greeks: Greeks { delta: 0, gamma: 0, theta: 0, vega: 0, rho: 0 },
            dte,
            timestamp: params.current_time,
        }
    }
}

/// One side of a chain holds well-formed contracts of one option type,
/// each filed under its whole-dollar strike key.
pub open spec fn side_ok(t: crate::strike_table::StrikeTable, ot: OptionType) -> bool {
    &&& t.wf()
    &&& forall|k: u32| #![trigger t.spec_get(k)] match t.spec_get(k) {
            Option::Some(c) => {
                &&& c.wf()
                &&& c.option_type == ot
                &&& 100 * k <= c.strike < 100 * k + 100
            },
            Option::None => true,
        }
}

/// Options chain for a specific expiration.
#[derive(Clone, Debug)]
pub struct OptionsChain {
    /// Underlying symbol.
    pub underlying: String,
    /// Expiration timestamp, seconds since the epoch.
    pub expiration: i64,
    /// Current underlying price in cents.
    pub underlying_price: i64,
    /// Call contracts keyed by whole-dollar strike.
    pub calls: crate::strike_table::StrikeTable,
    /// Put contracts keyed by whole-dollar strike.
    pub puts: crate::strike_table::StrikeTable,
    /// Timestamp of this chain.
    pub timestamp: i64,
}

impl OptionsChain {
    /// A chain the engine can evaluate a strategy against.
    pub open spec fn wf(self) -> bool {
        &&& side_ok(self.calls, OptionType::Call)
        &&& side_ok(self.puts, OptionType::Put)
        &&& 0 <= self.underlying_price <= PRICE_LIMIT
        &&& wf_time(self.timestamp)
        &&& wf_time(self.expiration)
    }

    /// Get the call contract at a whole-dollar strike.
    pub fn get_call(&self, strike: u32) -> (r: Option<&OptionsContract>)
        ensures
            match r {
                Option::Some(c) => self.calls.spec_get(strike) == Some(*c),
                Option::None => self.calls.spec_get(strike) is None,
            },
    {
        self.calls.get(strike)
    }

    /// Get the put contract at a whole-dollar strike.
    pub fn get_put(&self, strike: u32) -> (r: Option<&OptionsContract>)
        ensures
            match r {
                Option::Some(c) => self.puts.spec_get(strike) == Some(*c),
                Option::None => self.puts.spec_get(strike) is None,
            },
    {
        self.puts.get(strike)
    }

    /// Move the chain to a new underlying price and time; every stored
    /// quote is restamped with the new time and otherwise unchanged.
    pub fn update(&mut self, new_underlying_price: i64, current_time: i64)
        ensures
            final(self).underlying == old(self).underlying,
            final(self).expiration == old(self).expiration,
            final(self).underlying_price == new_underlying_price,
            final(self).timestamp == current_time,
            final(self).calls.spec_entries().len() == old(self).calls.spec_entries().len(),
            forall|i: int| #![trigger final(self).calls.spec_entries()[i]]
                0 <= i < old(self).calls.spec_entries().len()
                ==> final(self).calls.spec_entries()[i]
                    == (old(self).calls.spec_entries()[i].0,
                        spec_with_timestamp(old(self).calls.spec_entries()[i].1, current_time)),
            final(self).puts.spec_entries().len() == old(self).puts.spec_entries().len(),
            forall|i: int| #![trigger final(self).puts.spec_entries()[i]]
                0 <= i < old(self).puts.spec_entries().len()
                ==> final(self).puts.spec_entries()[i]
                    == (old(self).puts.spec_entries()[i].0,
                        spec_with_timestamp(old(self).puts.spec_entries()[i].1, current_time)),
            old(self).calls.wf() ==> final(self).calls.wf(),
            old(self).puts.wf() ==> final(self).puts.wf(),
    {
        self.underlying_price = new_underlying_price;
        self.timestamp = current_time;
        self.calls.set_all_timestamps(current_time);
        self.puts.set_all_timestamps(current_time);
    }

    /// An exact copy of this chain, entry for entry.
    pub fn duplicate(&self) -> (r: Self)
        ensures
            r.underlying == self.underlying,
            r.expiration == self.expiration,
            r.underlying_price == self.underlying_price,
            r.calls.spec_entries() == self.calls.spec_entries(),
            r.puts.spec_entries() == self.puts.spec_entries(),
            r.timestamp == self.timestamp,
    {
        OptionsChain {
            underlying: self.underlying.clone(),
            expiration: self.expiration,
            underlying_price: self.underlying_price,
            calls: self.calls.duplicate(),
            puts: self.puts.duplicate(),
            timestamp: self.timestamp,
        }
    }
}

} // verus!
