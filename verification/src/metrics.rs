//! Backtest performance metrics, derived from the trade ledger alone.
//!
//! Every statistic the engine reports is an exact integer or an exact
//! fraction ([`crate::ratio::Ratio`]): counts, gross amounts, percentage
//! ratios and the drawdown fold.  Statistics that need roots or powers
//! (Sharpe, Sortino, annualized return) are left to the reporting layer,
//! which derives them from the exact per-trade daily returns published
//! here.

use vstd::prelude::*;
use crate::wf_time;
use crate::spec_days_between;
use crate::ratio::Ratio;
use crate::ratio::ratio_lt;
use vstd::arithmetic::div_mod::lemma_div_is_ordered;

verus! {

/// Largest trade price magnitude, in cents, the metrics accept.
pub const TRADE_PRICE_LIMIT: i64 = 1_000_000_000_000_000;

/// Largest per-trade contract count the metrics accept.
pub const TRADE_QTY_LIMIT: u32 = 10_000;

/// Largest per-trade profit magnitude that well-formed trades can reach:
/// twice the price limit, times the contract count, times the hundred-
/// share contract multiplier.
pub const PROFIT_LIMIT: i128 = 2_000_000_000_000_000_000_000;

/// Largest ledger length the metrics accept.
pub const TRADES_LEN_LIMIT: u64 = 1_000_000_000_000;

/// Largest final-capital magnitude, in cents, the metrics accept.
pub const CAPITAL_LIMIT: i128 = 100_000_000_000_000_000_000_000_000_000_000_000;

/// Largest holding period, in whole days, of a well-formed trade.
pub const HOLD_DAYS_LIMIT: i64 = 3_000_000_000;

/// Structured facts recorded with a trade, including the explicit
/// open/closed flag.
#[derive(Clone, Copy, Debug, PartialEq, Eq, Structural)]
pub struct TradeMetadata {
    /// Premium received at entry, in cents.
    pub entry_premium: i64,
    /// Maximum profit of the position, in cents.
    pub max_profit: i64,
    /// Maximum loss of the position, in cents.
    pub max_loss: i64,
    /// Short call strike, in cents.
    pub short_call_strike: i64,
    /// Long call strike, in cents.
    pub long_call_strike: i64,
    /// Short put strike, in cents.
    pub short_put_strike: i64,
    /// Long put strike, in cents.
    pub long_put_strike: i64,
    /// Underlying price at entry, in cents.
    pub underlying_price: i64,
    /// Whether the trade was still open at the end of the stream.
    pub open: bool,
}

/// Trade record for backtest analysis.
#[derive(Clone, Debug)]
pub struct Trade {
    /// Trade identifier (the position's identifier).
    pub id: u128,
    /// Underlying symbol.
    pub symbol: String,
    /// Entry price, in cents: the entry premium of the spread.
    pub entry_price: i64,
    /// Exit price, in cents: the exit premium, zero while open.
    pub exit_price: i64,
    /// Quantity.
    pub quantity: u32,
    /// Entry time, seconds since the epoch.
    pub entry_time: i64,
    /// Exit time, seconds since the epoch; the entry time while open.
    pub exit_time: i64,
    /// Trade type tag.
    pub trade_type: String,
    /// Additional metadata.
    pub metadata: TradeMetadata,
}

impl Trade {
    /// A trade the metrics can do arithmetic on.
    pub open spec fn wf(self) -> bool {
        &&& -TRADE_PRICE_LIMIT <= self.entry_price <= TRADE_PRICE_LIMIT
        &&& -TRADE_PRICE_LIMIT <= self.exit_price <= TRADE_PRICE_LIMIT
        &&& self.quantity <= TRADE_QTY_LIMIT
        &&& wf_time(self.entry_time)
        &&& wf_time(self.exit_time)
    }

    /// An exact copy of this trade.
    pub fn duplicate(&self) -> (r: Self)
        ensures
            r == *self,
    {
        Trade {
            id: self.id,
            symbol: self.symbol.clone(),
            entry_price: self.entry_price,
            exit_price: self.exit_price,
            quantity: self.quantity,
            entry_time: self.entry_time,
            exit_time: self.exit_time,
            trade_type: self.trade_type.clone(),
            metadata: self.metadata,
        }
    }
}

/// Spec-level image of a trade; the strings as character sequences.
pub struct TradeView {
    pub id: u128,
    pub symbol: Seq<char>,
    pub entry_price: i64,
    pub exit_price: i64,
    pub quantity: u32,
    pub entry_time: i64,
    pub exit_time: i64,
    pub trade_type: Seq<char>,
    pub metadata: TradeMetadata,
}

impl View for Trade {
    type V = TradeView;

    open spec fn view(&self) -> TradeView {
        TradeView {
            id: self.id,
            symbol: self.symbol@,
            entry_price: self.entry_price,
            exit_price: self.exit_price,
            quantity: self.quantity,
            entry_time: self.entry_time,
            exit_time: self.exit_time,
            trade_type: self.trade_type@,
            metadata: self.metadata,
        }
    }
}

/// The views of a ledger's trades, in order.
pub open spec fn trades_views(s: Seq<Trade>) -> Seq<TradeView> {
    Seq::new(s.len(), |i: int| s[i]@)
}

/// Every trade of a ledger is well-formed.
pub open spec fn trades_wf(s: Seq<Trade>) -> bool {
    forall|i: int| #![trigger s[i]] 0 <= i < s.len() ==> s[i].wf()
}

/// Profit of one trade, in cents: price difference, times quantity,
/// times the hundred-share contract multiplier.
pub open spec fn spec_trade_profit(t: Trade) -> int {
    (t.exit_price - t.entry_price) * t.quantity * 100
}

/// A winning trade has strictly positive profit; zero counts as a loss.
pub open spec fn spec_is_win(t: Trade) -> bool {
    spec_trade_profit(t) > 0
}

/// Number of winning trades.
pub open spec fn spec_wins(s: Seq<Trade>) -> int
    decreases s.len(),
{
    if s.len() == 0 {
        0
    } else {
        spec_wins(s.drop_last()) + if spec_is_win(s.last()) {
            1int
        } else {
            0int
        }
    }
}

/// Number of losing trades (profit at most zero).
pub open spec fn spec_losses(s: Seq<Trade>) -> int
    decreases s.len(),
{
    if s.len() == 0 {
        0
    } else {
        spec_losses(s.drop_last()) + if spec_is_win(s.last()) {
            0int
        } else {
            1int
        }
    }
}

/// Sum of the profits of the winning trades.
pub open spec fn spec_gross_profit(s: Seq<Trade>) -> int
    decreases s.len(),
{
    if s.len() == 0 {
        0
    } else {
        spec_gross_profit(s.drop_last()) + if spec_is_win(s.last()) {
            spec_trade_profit(s.last())
        } else {
            0int
        }
    }
}

/// Sum of the absolute losses of the losing trades.
pub open spec fn spec_gross_loss(s: Seq<Trade>) -> int
    decreases s.len(),
{
    if s.len() == 0 {
        0
    } else {
        spec_gross_loss(s.drop_last()) + if spec_is_win(s.last()) {
            0int
        } else {
            -spec_trade_profit(s.last())
        }
    }
}

/// Sum of all per-trade profits.
pub open spec fn spec_profit_sum(s: Seq<Trade>) -> int
    decreases s.len(),
{
    if s.len() == 0 {
        0
    } else {
        spec_profit_sum(s.drop_last()) + spec_trade_profit(s.last())
    }
}

/// Capital after the whole ledger, from the given start.
pub open spec fn spec_capital_after(s: Seq<Trade>, initial: int) -> int {
    initial + spec_profit_sum(s)
}

/// Running peak capital over the ledger, seeded at the initial capital.
pub open spec fn spec_peak(s: Seq<Trade>, initial: int) -> int
    decreases s.len(),
{
    if s.len() == 0 {
        initial
    } else {
        let p = spec_peak(s.drop_last(), initial);
        let c = spec_capital_after(s, initial);
        if c > p {
            c
        } else {
            p
        }
    }
}

/// Whole-day holding period of one trade.
pub open spec fn spec_holding_days(t: Trade) -> int {
    spec_days_between(t.exit_time as int, t.entry_time as int)
}

/// Total holding days over the ledger.
pub open spec fn spec_total_holding_days(s: Seq<Trade>) -> int
    decreases s.len(),
{
    if s.len() == 0 {
        0
    } else {
        spec_total_holding_days(s.drop_last()) + spec_holding_days(s.last())
    }
}

/// Daily return of one trade: profit over initial capital over holding
/// days.  A zero- or negative-day holding period leaves a degenerate
/// fraction, the documented non-finite edge case.
pub open spec fn spec_daily_return(t: Trade, initial: int) -> Ratio {
    Ratio {
        num: spec_trade_profit(t) as i128,
        den: (initial * spec_holding_days(t)) as i128,
    }
}

/// Maximum drawdown over the ledger as a (numerator, denominator) pair,
/// folded in ledger order: at each step the running capital moves by the
/// trade's profit, the running peak absorbs it, and the step's drawdown
/// is the peak-to-current decline as a share of the peak; the result is
/// the largest step.
pub open spec fn spec_drawdown_fold(s: Seq<Trade>, initial: int) -> (int, int)
    decreases s.len(),
{
    if s.len() == 0 {
        (0, 1)
    } else {
        let prev = spec_drawdown_fold(s.drop_last(), initial);
        let current = spec_capital_after(s, initial);
        let peak = spec_peak(s, initial);
        let dd = if current < peak {
            ((peak - current) * 100, peak)
        } else {
            (0int, 1int)
        };
        if prev.0 * dd.1 < dd.0 * prev.1 {
            dd
        } else {
            prev
        }
    }
}

/// Capital never decreases along the ledger: no trade loses.
pub open spec fn spec_nondecreasing(s: Seq<Trade>) -> bool {
    forall|i: int| #![trigger s[i]] 0 <= i < s.len() ==> spec_trade_profit(s[i]) >= 0
}

/// Profit factor: gross profit over gross loss when losses exist,
/// positive infinity on gains without losses, zero on neither.
#[derive(Clone, Copy, Debug, PartialEq, Eq, Structural)]
pub enum ProfitFactor {
    /// Gross loss is positive: the exact quotient (which is the zero
    /// fraction when there is no gross profit).
    Finite(Ratio),
    /// Gross loss is zero and gross profit positive.
    Infinite,
    /// Neither gross profit nor gross loss.
    Zero,
}

/// The profit factor of a ledger.
pub open spec fn spec_profit_factor(s: Seq<Trade>) -> ProfitFactor {
    if spec_gross_loss(s) > 0 {
        ProfitFactor::Finite(
            Ratio { num: spec_gross_profit(s) as i128, den: spec_gross_loss(s) as i128 },
        )
    } else if spec_gross_profit(s) > 0 {
        ProfitFactor::Infinite
    } else {
        ProfitFactor::Zero
    }
}

/// Every ledger splits into its winning and its losing trades.
pub proof fn lemma_wins_plus_losses(s: Seq<Trade>)
    ensures
        spec_wins(s) + spec_losses(s) == s.len(),
        0 <= spec_wins(s) <= s.len(),
        0 <= spec_losses(s) <= s.len(),
    decreases s.len(),
{
    if s.len() > 0 {
        lemma_wins_plus_losses(s.drop_last());
    }
}

/// Gross profit and gross loss are sums of non-negative terms.
pub proof fn lemma_gross_nonneg(s: Seq<Trade>)
    ensures
        spec_gross_profit(s) >= 0,
        spec_gross_loss(s) >= 0,
    decreases s.len(),
{
    if s.len() > 0 {
        lemma_gross_nonneg(s.drop_last());
    }
}

/// The profit factor is positive infinity exactly when the ledger has
/// gains and no losses, and zero exactly when it has neither.
pub proof fn lemma_profit_factor_cases(s: Seq<Trade>)
    ensures
        (spec_profit_factor(s) is Infinite)
            <==> (spec_gross_loss(s) == 0 && spec_gross_profit(s) > 0),
        (spec_profit_factor(s) is Zero)
            <==> (spec_gross_loss(s) == 0 && spec_gross_profit(s) == 0),
{
    lemma_gross_nonneg(s);
}

/// The running peak never falls below the initial capital nor below the
/// running capital.
pub proof fn lemma_peak_bounds(s: Seq<Trade>, initial: int)
    ensures
        spec_peak(s, initial) >= initial,
        spec_peak(s, initial) >= spec_capital_after(s, initial),
    decreases s.len(),
{
    if s.len() > 0 {
        lemma_peak_bounds(s.drop_last(), initial);
    }
}

/// The drawdown fold yields a well-defined non-negative fraction.
pub proof fn lemma_drawdown_nonneg(s: Seq<Trade>, initial: int)
    requires
        initial > 0,
    ensures
        spec_drawdown_fold(s, initial).0 >= 0,
        spec_drawdown_fold(s, initial).1 > 0,
    decreases s.len(),
{
    if s.len() > 0 {
        lemma_drawdown_nonneg(s.drop_last(), initial);
        lemma_peak_bounds(s, initial);
    }
}

/// The maximum drawdown is the zero fraction exactly when capital never
/// decreases along the ledger.
pub proof fn lemma_drawdown_zero_iff_nondecreasing(s: Seq<Trade>, initial: int)
    requires
        initial > 0,
    ensures
        (spec_drawdown_fold(s, initial).0 == 0) <==> spec_nondecreasing(s),
    decreases s.len(),
{
    lemma_drawdown_nonneg(s, initial);
    if s.len() == 0 {
    } else {
        let butlast = s.drop_last();
        lemma_drawdown_zero_iff_nondecreasing(butlast, initial);
        lemma_drawdown_nonneg(butlast, initial);
        lemma_peak_bounds(butlast, initial);
        let prev = spec_drawdown_fold(butlast, initial);
        let current = spec_capital_after(s, initial);
        let peak = spec_peak(s, initial);
        let dd: (int, int) = if current < peak {
            ((peak - current) * 100, peak)
        } else {
            (0int, 1int)
        };
        if spec_drawdown_fold(s, initial).0 == 0 {
            // Both folded operands are zero fractions.
            if prev.0 * dd.1 < dd.0 * prev.1 {
                assert(dd.0 == 0);
                assert(prev.0 == 0) by (nonlinear_arith)
                    requires
                        prev.0 >= 0,
                        prev.1 > 0,
                        dd.1 > 0,
                        dd.0 == 0,
                        prev.0 * dd.1 < dd.0 * prev.1,
                ;
            } else {
                assert(prev.0 == 0);
                assert(dd.0 == 0) by (nonlinear_arith)
                    requires
                        dd.0 >= 0,
                        dd.1 > 0,
                        prev.1 > 0,
                        prev.0 == 0,
                        !(prev.0 * dd.1 < dd.0 * prev.1),
                ;
            }
            // A zero step means capital did not fall below the prior peak.
            assert(current >= spec_peak(butlast, initial));
            assert(spec_trade_profit(s.last()) >= 0);
            assert forall|i: int| #![trigger s[i]] 0 <= i < s.len() implies
                spec_trade_profit(s[i]) >= 0 by {
                if i < s.len() - 1 {
                    assert(butlast[i] == s[i]);
                } else {
                    assert(s[i] == s.last());
                }
            }
        }
        if spec_nondecreasing(s) {
            assert forall|i: int| #![trigger butlast[i]] 0 <= i < butlast.len() implies
                spec_trade_profit(butlast[i]) >= 0 by {
                assert(butlast[i] == s[i]);
            }
            assert(spec_nondecreasing(butlast));
            assert(prev.0 == 0);
            assert(s[s.len() - 1] == s.last());
            assert(spec_trade_profit(s.last()) >= 0);
            // With no losing step the capital stays at its peak.
            lemma_capital_at_peak(s, initial);
            assert(dd.0 == 0);
            assert(spec_drawdown_fold(s, initial).0 == 0) by (nonlinear_arith)
                requires
                    spec_drawdown_fold(s, initial) == (if prev.0 * dd.1 < dd.0 * prev.1 {
                        dd
                    } else {
                        prev
                    }),
                    prev.0 == 0,
                    dd.0 == 0,
            ;
        }
    }
}

/// Backtesting results and performance metrics, all exact.
#[derive(Clone, Debug)]
pub struct BacktestMetrics {
    /// Initial capital, in cents.
    pub initial_capital: i64,
    /// Final capital, in cents.
    pub final_capital: i128,
    /// Total return percentage.
    pub total_return_pct: Ratio,
    /// Maximum drawdown percentage.
    pub max_drawdown_pct: Ratio,
    /// Total number of trades.
    pub total_trades: usize,
    /// Number of winning trades.
    pub winning_trades: usize,
    /// Number of losing trades.
    pub losing_trades: usize,
    /// Win rate percentage.
    pub win_rate_pct: Ratio,
    /// Average profit per winning trade, in cents.
    pub avg_profit_per_win: Ratio,
    /// Average loss per losing trade, in cents.
    pub avg_loss_per_loss: Ratio,
    /// Profit factor (gross profit over gross loss).
    pub profit_factor: ProfitFactor,
    /// Average holding period, in days.
    pub avg_holding_days: Ratio,
    /// Per-trade daily returns, in ledger order, for risk ratios derived
    /// by the reporting layer.
    pub daily_returns: Vec<Ratio>,
}

/// Every reported statistic as a function of the inputs: what one
/// computation of the metrics must deliver.
pub open spec fn metrics_match(
    m: BacktestMetrics,
    initial: int,
    final_capital: int,
    s: Seq<Trade>,
) -> bool {
    &&& m.initial_capital == initial
    &&& m.final_capital == final_capital
    &&& m.total_return_pct == (Ratio {
            num: ((final_capital - initial) * 100) as i128,
            den: initial as i128,
        })
    &&& m.total_trades == s.len()
    &&& m.winning_trades == spec_wins(s)
    &&& m.losing_trades == spec_losses(s)
    &&& m.win_rate_pct == (if s.len() > 0 {
            Ratio { num: (spec_wins(s) * 100) as i128, den: s.len() as i128 }
        } else {
            Ratio { num: 0, den: 1 }
        })
    &&& m.avg_profit_per_win == (if spec_wins(s) > 0 {
            Ratio { num: spec_gross_profit(s) as i128, den: spec_wins(s) as i128 }
        } else {
            Ratio { num: 0, den: 1 }
        })
    &&& m.avg_loss_per_loss == (if spec_losses(s) > 0 {
            Ratio { num: spec_gross_loss(s) as i128, den: spec_losses(s) as i128 }
        } else {
            Ratio { num: 0, den: 1 }
        })
    &&& m.profit_factor == spec_profit_factor(s)
    &&& m.avg_holding_days == (if s.len() > 0 {
            Ratio { num: spec_total_holding_days(s) as i128, den: s.len() as i128 }
        } else {
            Ratio { num: 0, den: 1 }
        })
    &&& m.max_drawdown_pct.num == spec_drawdown_fold(s, initial).0
    &&& m.max_drawdown_pct.den == spec_drawdown_fold(s, initial).1
    &&& m.daily_returns@ == Seq::new(s.len(), |i: int| spec_daily_return(s[i], initial))
}

/// The metrics are a pure function of their inputs: two computations
/// from the same initial capital, final capital and trade ledger agree
/// on every reported statistic.
pub proof fn lemma_metrics_deterministic(
    m1: BacktestMetrics,
    m2: BacktestMetrics,
    initial: int,
    final_capital: int,
    s: Seq<Trade>,
)
    requires
        metrics_match(m1, initial, final_capital, s),
        metrics_match(m2, initial, final_capital, s),
    ensures
        m1.initial_capital == m2.initial_capital,
        m1.final_capital == m2.final_capital,
        m1.total_return_pct == m2.total_return_pct,
        m1.max_drawdown_pct == m2.max_drawdown_pct,
        m1.total_trades == m2.total_trades,
        m1.winning_trades == m2.winning_trades,
        m1.losing_trades == m2.losing_trades,
        m1.win_rate_pct == m2.win_rate_pct,
        m1.avg_profit_per_win == m2.avg_profit_per_win,
        m1.avg_loss_per_loss == m2.avg_loss_per_loss,
        m1.profit_factor == m2.profit_factor,
        m1.avg_holding_days == m2.avg_holding_days,
        m1.daily_returns@ == m2.daily_returns@,
{
    let n1 = m1.max_drawdown_pct;
    let n2 = m2.max_drawdown_pct;
    assert(n1.num == n2.num && n1.den == n2.den);
}

/// A trade holds at most this many days; its day count is workable.
pub proof fn lemma_holding_days_bound(t: Trade)
    requires
        t.wf(),
    ensures
        -HOLD_DAYS_LIMIT <= spec_holding_days(t) <= HOLD_DAYS_LIMIT,
{
    if t.exit_time >= t.entry_time {
        lemma_div_is_ordered(0, t.exit_time - t.entry_time, crate::SECS_PER_DAY as int);
        lemma_div_is_ordered(t.exit_time - t.entry_time, 2 * crate::TIME_LIMIT as int,
            crate::SECS_PER_DAY as int);
    } else {
        lemma_div_is_ordered(0, t.entry_time - t.exit_time, crate::SECS_PER_DAY as int);
        lemma_div_is_ordered(t.entry_time - t.exit_time, 2 * crate::TIME_LIMIT as int,
            crate::SECS_PER_DAY as int);
    }
}

impl BacktestMetrics {
    /// Fresh metrics for a run that has not traded yet.
    pub fn new(initial_capital: i64) -> (r: Self)
        ensures
            r.initial_capital == initial_capital,
            r.final_capital == initial_capital as i128,
            r.total_return_pct == (Ratio { num: 0, den: 1 }),
            r.max_drawdown_pct == (Ratio { num: 0, den: 1 }),
            r.total_trades == 0,
            r.winning_trades == 0,
            r.losing_trades == 0,
            r.win_rate_pct == (Ratio { num: 0, den: 1 }),
            r.avg_profit_per_win == (Ratio { num: 0, den: 1 }),
            r.avg_loss_per_loss == (Ratio { num: 0, den: 1 }),
            r.profit_factor == ProfitFactor::Zero,
            r.avg_holding_days == (Ratio { num: 0, den: 1 }),
            r.daily_returns@.len() == 0,
    {
        BacktestMetrics {
            initial_capital,
            final_capital: initial_capital as i128,
            total_return_pct: Ratio { num: 0, den: 1 },
            max_drawdown_pct: Ratio { num: 0, den: 1 },
            total_trades: 0,
            winning_trades: 0,
            losing_trades: 0,
            win_rate_pct: Ratio { num: 0, den: 1 },
            avg_profit_per_win: Ratio { num: 0, den: 1 },
            avg_loss_per_loss: Ratio { num: 0, den: 1 },
            profit_factor: ProfitFactor::Zero,
            avg_holding_days: Ratio { num: 0, den: 1 },
            daily_returns: Vec::new(),
        }
    }

    /// Derive every statistic from the final capital and the trade
    /// ledger, in ledger order.
    pub fn calculate(&mut self, final_capital: i128, trades: &Vec<Trade>)
        requires
            old(self).initial_capital > 0,
            trades_wf(trades@),
            trades@.len() <= TRADES_LEN_LIMIT,
            -CAPITAL_LIMIT <= final_capital <= CAPITAL_LIMIT,
        ensures
            metrics_match(*final(self), old(self).initial_capital as int,
                final_capital as int, trades@),
            final(self).total_trades
                == final(self).winning_trades + final(self).losing_trades,
            (final(self).profit_factor is Infinite)
                <==> (spec_gross_loss(trades@) == 0 && spec_gross_profit(trades@) > 0),
            (final(self).profit_factor is Zero)
                <==> (spec_gross_loss(trades@) == 0 && spec_gross_profit(trades@) == 0),
            final(self).max_drawdown_pct.num >= 0,
            final(self).max_drawdown_pct.den > 0,
            (final(self).max_drawdown_pct.num == 0) <==> spec_nondecreasing(trades@),
    {
        let initial = self.initial_capital;
        let ghost initial_int = initial as int;
        let ghost all = trades@;
        let n = trades.len();

        let mut winning: usize = 0;
        let mut losing: usize = 0;
        let mut gross_profit: i128 = 0;
        let mut gross_loss: i128 = 0;
        let mut total_days: i128 = 0;
        let mut current: i128 = initial as i128;
        let mut peak: i128 = initial as i128;
        let mut maxdd: Ratio = Ratio { num: 0, den: 1 };
        let mut daily: Vec<Ratio> = Vec::new();

        proof {
            assert(all.take(0) =~= Seq::<Trade>::empty());
            assert(daily@ =~= Seq::new(0, |j: int| spec_daily_return(all[j], initial_int)));
        }

        let mut i: usize = 0;
        while i < n
            invariant
                i <= n,
                n == all.len(),
                n <= TRADES_LEN_LIMIT,
                trades@ == all,
                trades_wf(all),
                initial == self.initial_capital,
                initial > 0,
                initial_int == initial as int,
                winning == spec_wins(all.take(i as int)),
                losing == spec_losses(all.take(i as int)),
                winning <= i,
                losing <= i,
                gross_profit == spec_gross_profit(all.take(i as int)),
                gross_loss == spec_gross_loss(all.take(i as int)),
                0 <= gross_profit <= i * PROFIT_LIMIT,
                0 <= gross_loss <= i * PROFIT_LIMIT,
                total_days == spec_total_holding_days(all.take(i as int)),
                -(i * HOLD_DAYS_LIMIT) <= total_days <= i * HOLD_DAYS_LIMIT,
                current == spec_capital_after(all.take(i as int), initial_int),
                initial - i * PROFIT_LIMIT <= current <= initial + i * PROFIT_LIMIT,
                peak == spec_peak(all.take(i as int), initial_int),
                initial <= peak <= initial + i * PROFIT_LIMIT,
                peak >= current,
                maxdd.num == spec_drawdown_fold(all.take(i as int), initial_int).0,
                maxdd.den == spec_drawdown_fold(all.take(i as int), initial_int).1,
                maxdd.num >= 0,
                maxdd.den > 0,
                daily@ == Seq::new(i as nat,
                    |j: int| spec_daily_return(all[j], initial_int)),
            decreases n - i,
        {
            let ghost pre = all.take(i as int);
            let ghost post = all.take(i + 1);
            proof {
                assert(post.drop_last() =~= pre);
                assert(post.last() == all[i as int]);
                assert(all[i as int].wf());
            }
            let t = &trades[i];
            let diff: i64 = t.exit_price - t.entry_price;
            proof {
                crate::lemma_mul_abs_bound(diff as int, 2 * TRADE_PRICE_LIMIT as int,
                    t.quantity as int, TRADE_QTY_LIMIT as int);
            }
            let profit: i128 = (diff as i128) * (t.quantity as i128) * 100;
            proof {
                assert(profit == spec_trade_profit(all[i as int]));
                assert(-PROFIT_LIMIT <= profit <= PROFIT_LIMIT);
            }

            if profit > 0 {
                winning = winning + 1;
                gross_profit = gross_profit + profit;
            } else {
                losing = losing + 1;
                gross_loss = gross_loss + (-profit);
            }

            let hd: i64 = crate::days_between(t.exit_time, t.entry_time);
            proof {
                assert(hd == spec_holding_days(all[i as int]));
                lemma_holding_days_bound(all[i as int]);
            }
            total_days = total_days + (hd as i128);

            proof {
                assert(-30_000_000_000_000_000_000_000_000_000int
                    <= (initial as int) * (hd as int)
                    <= 30_000_000_000_000_000_000_000_000_000int) by (nonlinear_arith)
                    requires
                        0 < initial <= 10_000_000_000_000_000_000int,
                        -HOLD_DAYS_LIMIT <= hd <= HOLD_DAYS_LIMIT,
                ;
            }
            let den: i128 = (initial as i128) * (hd as i128);
            daily.push(Ratio { num: profit, den });
            proof {
                assert(den == (initial as int) * (hd as int));
                assert(spec_holding_days(all[i as int]) == hd as int);
                assert(initial_int * spec_holding_days(all[i as int])
                    == (initial as int) * (hd as int)) by (nonlinear_arith)
                    requires
                        initial_int == initial as int,
                        spec_holding_days(all[i as int]) == hd as int,
                ;
                assert((initial_int * spec_holding_days(all[i as int])) as i128 == den);
                assert(spec_trade_profit(all[i as int]) as i128 == profit);
                assert((Ratio { num: profit, den })
                    == spec_daily_return(all[i as int], initial_int));
                assert(daily@ =~= Seq::new((i + 1) as nat,
                    |j: int| spec_daily_return(all[j], initial_int)));
            }

            current = current + profit;
            if current > peak {
                peak = current;
            }
            let ghost prevf = spec_drawdown_fold(pre, initial_int);
            if current < peak {
                let step = Ratio { num: (peak - current) * 100, den: peak };
                if ratio_lt(&maxdd, &step) {
                    maxdd = step;
                }
            }
            proof {
                let curp = spec_capital_after(post, initial_int);
                let peakp = spec_peak(post, initial_int);
                assert(curp == current);
                assert(peakp == peak);
                let ddp: (int, int) = if curp < peakp {
                    ((peakp - curp) * 100, peakp)
                } else {
                    (0int, 1int)
                };
                assert(spec_drawdown_fold(post, initial_int)
                    == (if prevf.0 * ddp.1 < ddp.0 * prevf.1 {
                        ddp
                    } else {
                        prevf
                    }));
                if current >= peak {
                    assert(prevf.0 * ddp.1 == prevf.0) by (nonlinear_arith)
                        requires ddp.1 == 1;
                    assert(ddp.0 * prevf.1 == 0) by (nonlinear_arith)
                        requires ddp.0 == 0;
                }
            }

            i = i + 1;
        }

        proof {
            assert(all.take(n as int) =~= all);
        }

        self.final_capital = final_capital;
        self.total_return_pct = Ratio {
            num: (final_capital - (initial as i128)) * 100,
            den: initial as i128,
        };
        self.total_trades = n;
        self.winning_trades = winning;
        self.losing_trades = losing;
        self.win_rate_pct = if n > 0 {
            Ratio { num: (winning as i128) * 100, den: n as i128 }
        } else {
            Ratio { num: 0, den: 1 }
        };
        self.avg_profit_per_win = if winning > 0 {
            Ratio { num: gross_profit, den: winning as i128 }
        } else {
            Ratio { num: 0, den: 1 }
        };
        self.avg_loss_per_loss = if losing > 0 {
            Ratio { num: gross_loss, den: losing as i128 }
        } else {
            Ratio { num: 0, den: 1 }
        };
        self.profit_factor = if gross_loss > 0 {
            ProfitFactor::Finite(Ratio { num: gross_profit, den: gross_loss })
        } else if gross_profit > 0 {
            ProfitFactor::Infinite
        } else {
            ProfitFactor::Zero
        };
        self.avg_holding_days = if n > 0 {
            Ratio { num: total_days, den: n as i128 }
        } else {
            Ratio { num: 0, den: 1 }
        };
        self.max_drawdown_pct = maxdd;
        self.daily_returns = daily;

        proof {
            lemma_wins_plus_losses(all);
            lemma_profit_factor_cases(all);
            lemma_drawdown_nonneg(all, initial_int);
            lemma_drawdown_zero_iff_nondecreasing(all, initial_int);
        }
    }
}

/// Along a non-decreasing ledger the running capital is the running peak.
pub proof fn lemma_capital_at_peak(s: Seq<Trade>, initial: int)
    requires
        spec_nondecreasing(s),
    ensures
        spec_capital_after(s, initial) == spec_peak(s, initial),
    decreases s.len(),
{
    if s.len() > 0 {
        let butlast = s.drop_last();
        assert forall|i: int| #![trigger butlast[i]] 0 <= i < butlast.len() implies
            spec_trade_profit(butlast[i]) >= 0 by {
            assert(butlast[i] == s[i]);
        }
        lemma_capital_at_peak(butlast, initial);
        assert(s[s.len() - 1] == s.last());
        assert(spec_trade_profit(s.last()) >= 0);
    }
}

} // verus!
