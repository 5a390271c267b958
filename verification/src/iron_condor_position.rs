//! A four-leg iron-condor spread position.
//!
//! Invariant of the data model: the long call sits strictly above the short
//! call and the long put strictly below the short put, so the protective
//! wings lie outside the short strikes.

use vstd::prelude::*;
use vstd::arithmetic::mul::lemma_mul_upper_bound;
use crate::wf_time;
use crate::spec_days_between;
use crate::options_data::OptionsContract;
use crate::options_data::OptionType;
use crate::options_data::PRICE_LIMIT;
use crate::options_data::QUOTE_LIMIT;
use crate::ratio::Ratio;

verus! {

/// Largest number of contracts a position may carry.
pub const QTY_LIMIT: u32 = 10_000;

/// Largest net premium magnitude, in cents, a well-formed position may
/// carry: two quotes received and two paid, each bounded, over at most
/// `QTY_LIMIT` contracts.
pub const PREMIUM_LIMIT: i64 = 400_000_000_000_000;

/// Relies on uuid::Uuid::new_v4 for a fresh random version-4 identifier,
/// returned as its 128-bit value; randomness promises nothing, so nothing
/// is assumed of the result.
#[verifier::external_body]
fn fresh_position_id() -> u128 {
    uuid::Uuid::new_v4().as_u128()
}

/// Net credit received when opening the four legs: short bids collected
/// minus long asks paid, scaled by the contract count.
pub open spec fn spec_entry_premium(
    short_call: OptionsContract,
    long_call: OptionsContract,
    short_put: OptionsContract,
    long_put: OptionsContract,
    quantity: u32,
) -> int {
    (short_call.bid + short_put.bid - long_call.ask - long_put.ask) * quantity
}

/// A complete iron condor position.
#[derive(Clone, Debug)]
pub struct IronCondorPosition {
    /// Unique position identifier.
    pub id: u128,
    /// Underlying symbol.
    pub underlying: String,
    /// Entry timestamp, seconds since the epoch.
    pub entry_time: i64,
    /// Exit timestamp (`None` while open).
    pub exit_time: Option<i64>,
    /// Short call (lower of the two call strikes).
    pub short_call: OptionsContract,
    /// Long call (higher call strike, protection).
    pub long_call: OptionsContract,
    /// Short put (higher of the two put strikes).
    pub short_put: OptionsContract,
    /// Long put (lower put strike, protection).
    pub long_put: OptionsContract,
    /// Number of contracts.
    pub quantity: u32,
    /// Entry premium received, in cents (net credit).
    pub entry_premium: i64,
    /// Exit premium paid, in cents, if closed early.
    pub exit_premium: Option<i64>,
    /// Reason for the exit, if closed.
    pub exit_reason: Option<String>,
}

/// The position record built from given legs and identifier.
pub open spec fn spec_build_position(
    underlying: String,
    short_call: OptionsContract,
    long_call: OptionsContract,
    short_put: OptionsContract,
    long_put: OptionsContract,
    quantity: u32,
    entry_time: i64,
    id: u128,
) -> IronCondorPosition {
    IronCondorPosition {
        id,
        underlying,
        entry_time,
        exit_time: None,
        short_call,
        long_call,
        short_put,
        long_put,
        quantity,
        entry_premium: spec_entry_premium(short_call, long_call, short_put, long_put,
            quantity) as i64,
        exit_premium: None,
        exit_reason: None,
    }
}

impl IronCondorPosition {
    /// A position the engine can do arithmetic on: well-formed legs, the
    /// protective wings strictly outside the short strikes, and a recorded
    /// premium that matches its defining formula.
    pub open spec fn wf(self) -> bool {
        &&& self.short_call.wf()
        &&& self.long_call.wf()
        &&& self.short_put.wf()
        &&& self.long_put.wf()
        &&& self.quantity <= QTY_LIMIT
        &&& self.long_call.strike > self.short_call.strike
        &&& self.short_put.strike > self.long_put.strike
        &&& self.entry_premium == spec_entry_premium(self.short_call, self.long_call,
                self.short_put, self.long_put, self.quantity)
        &&& -PREMIUM_LIMIT <= self.entry_premium <= PREMIUM_LIMIT
        &&& wf_time(self.entry_time)
        &&& match self.exit_premium {
                Option::Some(ep) => -PREMIUM_LIMIT <= ep <= PREMIUM_LIMIT,
                Option::None => true,
            }
    }

    /// Open a position on the four given legs.  The entry premium is
    /// computed once, here; the identifier is freshly drawn at random.
    pub fn new(
        underlying: String,
        short_call: OptionsContract,
        long_call: OptionsContract,
        short_put: OptionsContract,
        long_put: OptionsContract,
        quantity: u32,
        entry_time: i64,
    ) -> (r: Self)
        requires
            short_call.wf(),
            long_call.wf(),
            short_put.wf(),
            long_put.wf(),
            quantity <= QTY_LIMIT,
            long_call.strike > short_call.strike,
            short_put.strike > long_put.strike,
            wf_time(entry_time),
        ensures
            r == spec_build_position(underlying, short_call, long_call, short_put,
                long_put, quantity, entry_time, r.id),
            r.wf(),
    {
        let gross: i64 = short_call.bid + short_put.bid - long_call.ask - long_put.ask;
        proof {
            crate::lemma_mul_abs_bound(gross as int, 2 * QUOTE_LIMIT as int,
                quantity as int, QTY_LIMIT as int);
        }
        let entry_premium: i64 = gross * (quantity as i64);
        IronCondorPosition {
            id: fresh_position_id(),
            underlying,
            entry_time,
            exit_time: None,
            short_call,
            long_call,
            short_put,
            long_put,
            quantity,
            entry_premium,
            exit_premium: None,
            exit_reason: None,
        }
    }

    /// Whether the position is still open.
    pub fn is_open(&self) -> (r: bool)
        ensures
            r == (self.exit_time is None),
    {
        self.exit_time.is_none()
    }

    /// Width of the call spread, in cents.
    pub fn call_spread_width(&self) -> (r: i64)
        requires
            self.wf(),
        ensures
            r == self.long_call.strike - self.short_call.strike,
            r > 0,
    {
        self.long_call.strike - self.short_call.strike
    }

    /// Width of the put spread, in cents.
    pub fn put_spread_width(&self) -> (r: i64)
        requires
            self.wf(),
        ensures
            r == self.short_put.strike - self.long_put.strike,
            r > 0,
    {
        self.short_put.strike - self.long_put.strike
    }

    /// Maximum profit: the premium received.
    pub fn max_profit(&self) -> (r: i64)
        ensures
            r == self.entry_premium,
    {
        self.entry_premium
    }

    /// Maximum loss: the wider spread, scaled by the contract count, minus
    /// the premium received.
    pub open spec fn spec_max_loss(self) -> int {
        let call_width = self.long_call.strike - self.short_call.strike;
        let put_width = self.short_put.strike - self.long_put.strike;
        let wider = if call_width >= put_width {
            call_width
        } else {
            put_width
        };
        wider * self.quantity - self.entry_premium
    }

    /// Maximum loss, in cents.
    pub fn max_loss(&self) -> (r: i64)
        requires
            self.wf(),
        ensures
            r == self.spec_max_loss(),
    {
        let call_width = self.long_call.strike - self.short_call.strike;
        let put_width = self.short_put.strike - self.long_put.strike;
        let wider: i64 = if call_width >= put_width {
            call_width
        } else {
            put_width
        };
        proof {
            lemma_mul_upper_bound(wider as int, 2 * QUOTE_LIMIT, self.quantity as int,
                QTY_LIMIT as int);
            vstd::arithmetic::mul::lemma_mul_nonnegative(wider as int, self.quantity as int);
        }
        wider * (self.quantity as i64) - self.entry_premium
    }

    /// Mark-to-market loss on the call side at the given underlying price:
    /// zero below the short strike, capped at the full spread above the
    /// long strike, linear in between.
    pub open spec fn spec_call_side_pnl(self, underlying_price: int) -> int {
        if underlying_price >= self.long_call.strike {
            -((self.long_call.strike - self.short_call.strike) * self.quantity)
        } else if underlying_price <= self.short_call.strike {
            0
        } else {
            -((underlying_price - self.short_call.strike) * self.quantity)
        }
    }

    /// Mark-to-market loss on the put side at the given underlying price.
    pub open spec fn spec_put_side_pnl(self, underlying_price: int) -> int {
        if underlying_price <= self.long_put.strike {
            -((self.short_put.strike - self.long_put.strike) * self.quantity)
        } else if underlying_price >= self.short_put.strike {
            0
        } else {
            -((self.short_put.strike - underlying_price) * self.quantity)
        }
    }

    /// Unrealized profit or loss of an open position, marked to market.
    pub open spec fn spec_unrealized_pnl(self, underlying_price: int) -> int {
        self.entry_premium + self.spec_call_side_pnl(underlying_price)
            + self.spec_put_side_pnl(underlying_price)
    }

    /// Profit or loss: realized against the exit premium once closed,
    /// otherwise unrealized at the given underlying price.
    pub open spec fn spec_pnl(self, underlying_price: int) -> int {
        match self.exit_premium {
            Option::Some(ep) => self.entry_premium - ep,
            Option::None => self.spec_unrealized_pnl(underlying_price),
        }
    }

    /// Current profit or loss, in cents, at the given underlying price.
    pub fn calculate_pnl(&self, current_underlying_price: i64) -> (r: i64)
        requires
            self.wf(),
            0 <= current_underlying_price <= PRICE_LIMIT,
        ensures
            r == self.spec_pnl(current_underlying_price as int),
            -3 * PREMIUM_LIMIT <= r <= 3 * PREMIUM_LIMIT,
    {
        match self.exit_premium {
            Some(ep) => self.entry_premium - ep,
            None => self.calculate_unrealized_pnl(current_underlying_price),
        }
    }

    /// Unrealized (mark-to-market) profit or loss, in cents.
    fn calculate_unrealized_pnl(&self, current_underlying_price: i64) -> (r: i64)
        requires
            self.wf(),
            0 <= current_underlying_price <= PRICE_LIMIT,
        ensures
            r == self.spec_unrealized_pnl(current_underlying_price as int),
            -3 * PREMIUM_LIMIT <= r <= 3 * PREMIUM_LIMIT,
    {
        let qty = self.quantity as i64;
        let call_spread_pnl: i64 = if current_underlying_price >= self.long_call.strike {
            proof {
                crate::lemma_mul_abs_bound(
                    self.long_call.strike - self.short_call.strike,
                    2 * QUOTE_LIMIT as int, self.quantity as int, QTY_LIMIT as int);
            }
            -((self.long_call.strike - self.short_call.strike) * qty)
        } else if current_underlying_price <= self.short_call.strike {
            0
        } else {
            proof {
                crate::lemma_mul_abs_bound(
                    current_underlying_price - self.short_call.strike,
                    2 * QUOTE_LIMIT as int, self.quantity as int, QTY_LIMIT as int);
            }
            -((current_underlying_price - self.short_call.strike) * qty)
        };
        let put_spread_pnl: i64 = if current_underlying_price <= self.long_put.strike {
            proof {
                crate::lemma_mul_abs_bound(
                    self.short_put.strike - self.long_put.strike,
                    2 * QUOTE_LIMIT as int, self.quantity as int, QTY_LIMIT as int);
            }
            -((self.short_put.strike - self.long_put.strike) * qty)
        } else if current_underlying_price >= self.short_put.strike {
            0
        } else {
            proof {
                crate::lemma_mul_abs_bound(
                    self.short_put.strike - current_underlying_price,
                    2 * QUOTE_LIMIT as int, self.quantity as int, QTY_LIMIT as int);
            }
            -((self.short_put.strike - current_underlying_price) * qty)
        };
        self.entry_premium + call_spread_pnl + put_spread_pnl
    }

    /// Profit as a percentage of maximum profit; the exact ratio zero when
    /// the position has no positive maximum profit.
    pub open spec fn spec_profit_percentage(self, underlying_price: int) -> Ratio {
        if self.entry_premium > 0 {
            Ratio {
                num: (100 * self.spec_pnl(underlying_price)) as i128,
                den: self.entry_premium as i128,
            }
        } else {
            Ratio { num: 0, den: 1 }
        }
    }

    /// Profit percentage relative to maximum profit, as an exact ratio.
    pub fn profit_percentage(&self, current_underlying_price: i64) -> (r: Ratio)
        requires
            self.wf(),
            0 <= current_underlying_price <= PRICE_LIMIT,
        ensures
            r == self.spec_profit_percentage(current_underlying_price as int),
            r.is_number(),
    {
        let max_profit = self.entry_premium;
        if max_profit > 0 {
            let pnl = self.calculate_pnl(current_underlying_price);
            Ratio { num: 100 * (pnl as i128), den: max_profit as i128 }
        } else {
            Ratio { num: 0, den: 1 }
        }
    }

    /// Whole days from `current_time` to the short call's expiration.
    pub fn days_to_expiration(&self, current_time: i64) -> (r: i64)
        requires
            self.wf(),
            wf_time(current_time),
        ensures
            r == spec_days_between(self.short_call.expiration as int, current_time as int),
    {
        crate::days_between(self.short_call.expiration, current_time)
    }

    /// An exact copy of this position.
    pub fn duplicate(&self) -> (r: Self)
        ensures
            r == *self,
    {
        IronCondorPosition {
            id: self.id,
            underlying: self.underlying.clone(),
            entry_time: self.entry_time,
            exit_time: self.exit_time,
            short_call: self.short_call.duplicate(),
            long_call: self.long_call.duplicate(),
            short_put: self.short_put.duplicate(),
            long_put: self.long_put.duplicate(),
            quantity: self.quantity,
            entry_premium: self.entry_premium,
            exit_premium: self.exit_premium,
            exit_reason: match &self.exit_reason {
                Some(s) => Some(s.clone()),
                None => None,
            },
        }
    }
}

} // verus!
