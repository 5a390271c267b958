//! Backtest execution loop.
//!
//! Consumes an ordered sequence of market snapshots, applies the
//! strategy's decisions to a capital ledger, and emits a trade ledger,
//! an equity curve and the performance metrics.  Processing order is the
//! arrival order of the snapshots, and every capital movement is pinned
//! by the run fold [`spec_run`].

use vstd::prelude::*;
use crate::wf_time;
use crate::options_data::OptionsChain;
use crate::options_data::PRICE_LIMIT;
use crate::iron_condor::IronCondorConfig;
use crate::iron_condor::IronCondorSignal;
use crate::iron_condor::IronCondorSignalGenerator;
use crate::iron_condor::SignalView;
use crate::iron_condor::StateView;
use crate::iron_condor::signal_opt_view;
use crate::iron_condor::spec_step;
use crate::iron_condor::state_wf;
use crate::iron_condor_position::QTY_LIMIT;
use crate::metrics::BacktestMetrics;
use crate::metrics::Trade;
use crate::metrics::TradeMetadata;
use crate::metrics::TradeView;
use crate::metrics::trades_views;
use crate::metrics::trades_wf;
use crate::metrics::metrics_match;
use crate::metrics::TRADES_LEN_LIMIT;
use crate::metrics::TRADE_QTY_LIMIT;

verus! {

/// Largest capital movement, in cents, one snapshot can cause: premium
/// or realized gain, plus commission on four legs.
pub const RUN_STEP_LIMIT: i128 = 2_000_000_000_000_000;

/// Configuration for a backtest run.
#[derive(Clone, Debug)]
pub struct BacktestConfig {
    /// Initial capital, in cents.
    pub initial_capital: i64,
    /// Start of the backtest window, seconds since the epoch.
    pub start_date: i64,
    /// End of the backtest window, seconds since the epoch.
    pub end_date: i64,
    /// Commission per contract, in cents.
    pub commission_per_contract: i64,
    /// Slippage, in basis points (reserved for future use).
    pub slippage_pct: u32,
}

impl BacktestConfig {
    /// A configuration the engine can run on.
    pub open spec fn wf(self) -> bool {
        &&& self.initial_capital > 0
        &&& 0 <= self.commission_per_contract <= PRICE_LIMIT
        &&& wf_time(self.start_date)
        &&& wf_time(self.end_date)
    }

    /// The stock configuration, anchored at the given current time:
    /// one hundred thousand dollars over the year up to now, at
    /// sixty-five cents commission per contract.
    pub fn default_at(now: i64) -> (r: Self)
        requires
            wf_time(now),
            now - 365 * 86400 >= -crate::TIME_LIMIT,
        ensures
            r.initial_capital == 10_000_000,
            r.start_date == now - 365 * 86400,
            r.end_date == now,
            r.commission_per_contract == 65,
            r.slippage_pct == 500,
            r.wf(),
    {
        BacktestConfig {
            initial_capital: 10_000_000,
            start_date: now - 365 * 86400,
            end_date: now,
            commission_per_contract: 65,
            slippage_pct: 500,
        }
    }
}

/// Market snapshot with options chains for several expirations.
#[derive(Clone, Debug)]
pub struct EnhancedMarketEvent {
    /// Underlying symbol.
    pub symbol: String,
    /// Underlying price, in cents.
    pub underlying_price: i64,
    /// Aggregate traded volume.
    pub volume: u64,
    /// Aggregate implied volatility, in basis points.
    pub implied_volatility: u32,
    /// Options chains, one per expiration.
    pub options_chains: Vec<OptionsChain>,
    /// Snapshot timestamp, seconds since the epoch.
    pub timestamp: i64,
}

/// Index of the first chain with the earliest expiration.
pub open spec fn spec_nearest_idx(chains: Seq<OptionsChain>) -> int
    decreases chains.len(),
{
    if chains.len() <= 1 {
        0
    } else {
        let r = spec_nearest_idx(chains.drop_last());
        if chains.last().expiration < chains[r].expiration {
            chains.len() - 1
        } else {
            r
        }
    }
}

/// The chain a snapshot is evaluated against: the one with the earliest
/// expiration (the first of them, on a shared expiration).
pub open spec fn spec_event_chain(e: EnhancedMarketEvent) -> Option<OptionsChain> {
    if e.options_chains@.len() == 0 {
        None
    } else {
        Some(e.options_chains@[spec_nearest_idx(e.options_chains@)])
    }
}

/// The nearest-expiration index is in range and holds the minimum.
pub proof fn lemma_nearest_idx_char(chains: Seq<OptionsChain>)
    requires
        chains.len() > 0,
    ensures
        0 <= spec_nearest_idx(chains) < chains.len(),
        forall|j: int| #![trigger chains[j]] 0 <= j < chains.len()
            ==> chains[spec_nearest_idx(chains)].expiration <= chains[j].expiration,
        forall|j: int| #![trigger chains[j]] 0 <= j < spec_nearest_idx(chains)
            ==> chains[spec_nearest_idx(chains)].expiration < chains[j].expiration,
    decreases chains.len(),
{
    if chains.len() > 1 {
        lemma_nearest_idx_char(chains.drop_last());
        let r = spec_nearest_idx(chains.drop_last());
        assert forall|j: int| #![trigger chains[j]] 0 <= j < chains.len() implies
            chains[spec_nearest_idx(chains)].expiration <= chains[j].expiration by {
            if j < chains.len() - 1 {
                assert(chains.drop_last()[j] == chains[j]);
            }
        }
        assert forall|j: int| #![trigger chains[j]] 0 <= j < spec_nearest_idx(chains) implies
            chains[spec_nearest_idx(chains)].expiration < chains[j].expiration by {
            if j < chains.len() - 1 {
                assert(chains.drop_last()[j] == chains[j]);
            }
        }
    }
}

/// The same chain moved to a new underlying price and time: every
/// stored quote restamped with the new time and otherwise unchanged.
pub open spec fn chain_stamped(
    c1: OptionsChain,
    c0: OptionsChain,
    new_underlying_price: i64,
    new_timestamp: i64,
) -> bool {
    &&& c1.underlying == c0.underlying
    &&& c1.expiration == c0.expiration
    &&& c1.underlying_price == new_underlying_price
    &&& c1.timestamp == new_timestamp
    &&& c1.calls.spec_entries().len() == c0.calls.spec_entries().len()
    &&& forall|j: int| #![trigger c1.calls.spec_entries()[j]]
            0 <= j < c0.calls.spec_entries().len()
            ==> c1.calls.spec_entries()[j] == (c0.calls.spec_entries()[j].0,
                crate::options_data::spec_with_timestamp(c0.calls.spec_entries()[j].1,
                    new_timestamp))
    &&& c1.puts.spec_entries().len() == c0.puts.spec_entries().len()
    &&& forall|j: int| #![trigger c1.puts.spec_entries()[j]]
            0 <= j < c0.puts.spec_entries().len()
            ==> c1.puts.spec_entries()[j] == (c0.puts.spec_entries()[j].0,
                crate::options_data::spec_with_timestamp(c0.puts.spec_entries()[j].1,
                    new_timestamp))
}

/// A snapshot the engine can evaluate: workable timestamp, well-formed
/// chains.
pub open spec fn event_wf(e: EnhancedMarketEvent) -> bool {
    &&& wf_time(e.timestamp)
    &&& forall|i: int| #![trigger e.options_chains@[i]]
            0 <= i < e.options_chains@.len() ==> e.options_chains@[i].wf()
}

impl EnhancedMarketEvent {
    /// Borrow the chain with the earliest expiration.
    pub fn nearest_chain(&self) -> (r: Option<&OptionsChain>)
        ensures
            match r {
                Option::Some(c) => spec_event_chain(*self) == Some(*c),
                Option::None => spec_event_chain(*self) is None,
            },
    {
        let n = self.options_chains.len();
        if n == 0 {
            return None;
        }
        let mut best: usize = 0;
        let mut i: usize = 1;
        while i < n
            invariant
                1 <= i <= n,
                best < i,
                n == self.options_chains@.len(),
                best == spec_nearest_idx(self.options_chains@.take(i as int)),
            decreases n - i,
        {
            proof {
                let tnext = self.options_chains@.take(i + 1);
                assert(tnext.drop_last() =~= self.options_chains@.take(i as int));
                assert(tnext.last() == self.options_chains@[i as int]);
            }
            if self.options_chains[i].expiration < self.options_chains[best].expiration {
                best = i;
            }
            i = i + 1;
        }
        proof {
            assert(self.options_chains@.take(n as int) =~= self.options_chains@);
        }
        Some(&self.options_chains[best])
    }

    /// The earliest expiration among the snapshot's chains.
    pub fn get_nearest_expiration(&self) -> (r: Option<i64>)
        ensures
            match r {
                Option::Some(x) => {
                    &&& spec_event_chain(*self) is Some
                    &&& spec_event_chain(*self)->Some_0.expiration == x
                },
                Option::None => self.options_chains@.len() == 0,
            },
    {
        match self.nearest_chain() {
            Some(c) => Some(c.expiration),
            None => None,
        }
    }

    /// Borrow the first chain with the given expiration.
    pub fn get_options_chain(&self, expiration: i64) -> (r: Option<&OptionsChain>)
        ensures
            match r {
                Option::Some(c) => {
                    &&& c.expiration == expiration
                    &&& exists|i: int| #![trigger self.options_chains@[i]]
                        0 <= i < self.options_chains@.len()
                        && self.options_chains@[i] == *c
                        && forall|j: int| #![trigger self.options_chains@[j]] 0 <= j < i
                            ==> self.options_chains@[j].expiration != expiration
                },
                Option::None => forall|i: int| #![trigger self.options_chains@[i]]
                    0 <= i < self.options_chains@.len()
                    ==> self.options_chains@[i].expiration != expiration,
            },
    {
        let n = self.options_chains.len();
        let mut i: usize = 0;
        while i < n
            invariant
                i <= n,
                n == self.options_chains@.len(),
                forall|j: int| #![trigger self.options_chains@[j]] 0 <= j < i
                    ==> self.options_chains@[j].expiration != expiration,
            decreases n - i,
        {
            if self.options_chains[i].expiration == expiration {
                return Some(&self.options_chains[i]);
            }
            i = i + 1;
        }
        None
    }

    /// Move every chain of the snapshot to a new underlying price and
    /// time; stored quotes are restamped, otherwise unchanged.
    pub fn update_options_chains(&mut self, new_underlying_price: i64, new_timestamp: i64)
        ensures
            final(self).symbol == old(self).symbol,
            final(self).underlying_price == new_underlying_price,
            final(self).volume == old(self).volume,
            final(self).implied_volatility == old(self).implied_volatility,
            final(self).timestamp == new_timestamp,
            final(self).options_chains@.len() == old(self).options_chains@.len(),
            forall|i: int| #![trigger final(self).options_chains@[i]]
                0 <= i < old(self).options_chains@.len()
                ==> chain_stamped(final(self).options_chains@[i],
                    old(self).options_chains@[i], new_underlying_price, new_timestamp),
    {
        self.underlying_price = new_underlying_price;
        self.timestamp = new_timestamp;
        let n = self.options_chains.len();
        let mut i: usize = 0;
        while i < n
            invariant
                i <= n,
                n == self.options_chains@.len(),
                self.symbol == old(self).symbol,
                self.underlying_price == new_underlying_price,
                self.volume == old(self).volume,
                self.implied_volatility == old(self).implied_volatility,
                self.timestamp == new_timestamp,
                forall|j: int| #![trigger self.options_chains@[j]] i <= j < n
                    ==> self.options_chains@[j] == old(self).options_chains@[j],
                forall|j: int| #![trigger self.options_chains@[j]] 0 <= j < i
                    ==> chain_stamped(self.options_chains@[j],
                        old(self).options_chains@[j], new_underlying_price, new_timestamp),
            decreases n - i,
        {
            let chain = &mut self.options_chains[i];
            chain.update(new_underlying_price, new_timestamp);
            i = i + 1;
        }
    }
}

/// Market data generator that replays a recorded event sequence.
pub struct HistoricalMarketGenerator {
    /// Symbol the events belong to.
    pub symbol: String,
    /// Recorded market events, in arrival order.
    pub events: Vec<EnhancedMarketEvent>,
    /// Index of the next event to hand out.
    pub current_idx: usize,
}

impl HistoricalMarketGenerator {
    pub fn new(symbol: String, events: Vec<EnhancedMarketEvent>) -> (r: Self)
        ensures
            r.symbol == symbol,
            r.events == events,
            r.current_idx == 0,
    {
        HistoricalMarketGenerator { symbol, events, current_idx: 0 }
    }

    /// Hand out the next recorded event, a faithful copy, and advance.
    pub fn next_event(&mut self) -> (r: Option<EnhancedMarketEvent>)
        requires
            old(self).current_idx <= old(self).events@.len(),
        ensures
            final(self).symbol == old(self).symbol,
            final(self).events == old(self).events,
            match r {
                Option::Some(e) => {
                    &&& old(self).current_idx < old(self).events@.len()
                    &&& final(self).current_idx == old(self).current_idx + 1
                    &&& event_like(e, old(self).events@[old(self).current_idx as int])
                },
                Option::None => {
                    &&& old(self).current_idx == old(self).events@.len()
                    &&& final(self).current_idx == old(self).current_idx
                },
            },
    {
        if self.current_idx >= self.events.len() {
            return None;
        }
        let e = duplicate_event(&self.events[self.current_idx]);
        self.current_idx = self.current_idx + 1;
        Some(e)
    }
}

/// Two chains that agree entry for entry.
pub open spec fn chain_like(a: OptionsChain, b: OptionsChain) -> bool {
    &&& a.underlying == b.underlying
    &&& a.expiration == b.expiration
    &&& a.underlying_price == b.underlying_price
    &&& a.calls.spec_entries() == b.calls.spec_entries()
    &&& a.puts.spec_entries() == b.puts.spec_entries()
    &&& a.timestamp == b.timestamp
}

/// Two events that agree field for field, chain for chain.
pub open spec fn event_like(a: EnhancedMarketEvent, b: EnhancedMarketEvent) -> bool {
    &&& a.symbol == b.symbol
    &&& a.underlying_price == b.underlying_price
    &&& a.volume == b.volume
    &&& a.implied_volatility == b.implied_volatility
    &&& a.timestamp == b.timestamp
    &&& a.options_chains@.len() == b.options_chains@.len()
    &&& forall|i: int| #![trigger a.options_chains@[i]]
            0 <= i < a.options_chains@.len()
            ==> chain_like(a.options_chains@[i], b.options_chains@[i])
}

/// Timestamp-keyed equity curve.  Recordings are journaled in arrival
/// order; as a mapping, a later recording at the same timestamp
/// overwrites the earlier one.
#[derive(Clone, Debug)]
pub struct EquityCurve {
    entries: Vec<(i64, i128)>,
}

/// The mapping an equity journal denotes: later entries win.
pub open spec fn curve_map(s: Seq<(i64, i128)>) -> Map<i64, i128>
    decreases s.len(),
{
    if s.len() == 0 {
        Map::empty()
    } else {
        curve_map(s.drop_last()).insert(s.last().0, s.last().1)
    }
}

impl View for EquityCurve {
    type V = Map<i64, i128>;

    closed spec fn view(&self) -> Map<i64, i128> {
        curve_map(self.entries@)
    }
}

impl EquityCurve {
    /// The recordings, in arrival order.
    pub closed spec fn spec_entries(self) -> Seq<(i64, i128)> {
        self.entries@
    }

    pub fn new() -> (r: Self)
        ensures
            r@ == Map::<i64, i128>::empty(),
            r.spec_entries().len() == 0,
    {
        EquityCurve { entries: Vec::new() }
    }

    /// Record the equity at a timestamp.
    pub fn record(&mut self, timestamp: i64, equity: i128)
        ensures
            final(self)@ == old(self)@.insert(timestamp, equity),
            final(self).spec_entries() == old(self).spec_entries().push((timestamp, equity)),
    {
        self.entries.push((timestamp, equity));
        proof {
            assert(self.entries@.drop_last() =~= old(self).entries@);
        }
    }

    /// Number of recordings made.
    pub fn len(&self) -> (r: usize)
        ensures
            r == self.spec_entries().len(),
    {
        self.entries.len()
    }

    /// The recording at a position, in arrival order.
    pub fn entry_at(&self, i: usize) -> (r: (i64, i128))
        requires
            i < self.spec_entries().len(),
        ensures
            r == self.spec_entries()[i as int],
    {
        self.entries[i]
    }
}

/// State threaded through the run fold: the strategy's state, the
/// capital, the still-open trades, the finished ledger and the curve.
pub struct RunView {
    pub strat: StateView,
    pub capital: int,
    pub active_trades: Seq<TradeView>,
    pub ledger: Seq<TradeView>,
    pub curve: Map<i64, i128>,
}

/// Index of the first open trade carrying the identifier; the length
/// when none does.
pub open spec fn spec_find_trade(ts: Seq<TradeView>, id: u128) -> int
    decreases ts.len(),
{
    if ts.len() == 0 {
        0
    } else if ts[0].id == id {
        0
    } else {
        1 + spec_find_trade(ts.skip(1), id)
    }
}

/// The found index is in range, nothing before it matches, and it
/// matches whenever it is in range.
pub proof fn lemma_find_trade_char(ts: Seq<TradeView>, id: u128)
    ensures
        0 <= spec_find_trade(ts, id) <= ts.len(),
        forall|j: int| #![trigger ts[j]] 0 <= j < spec_find_trade(ts, id) ==> ts[j].id != id,
        spec_find_trade(ts, id) < ts.len() ==> ts[spec_find_trade(ts, id)].id == id,
    decreases ts.len(),
{
    if ts.len() == 0 {
    } else if ts[0].id == id {
    } else {
        lemma_find_trade_char(ts.skip(1), id);
        let fi = spec_find_trade(ts, id);
        assert forall|j: int| #![trigger ts[j]] 0 <= j < fi implies ts[j].id != id by {
            if j > 0 {
                assert(ts.skip(1)[j - 1] == ts[j]);
            }
        }
        if fi < ts.len() {
            assert(ts.skip(1)[fi - 1] == ts[fi]);
        }
    }
}

/// The trade record opened for an entered position.
pub open spec fn spec_open_trade(
    position: crate::iron_condor_position::IronCondorPosition,
    symbol: Seq<char>,
    chain_price: i64,
    timestamp: i64,
) -> TradeView {
    TradeView {
        id: position.id,
        symbol,
        entry_price: position.entry_premium,
        exit_price: 0,
        quantity: position.quantity,
        entry_time: timestamp,
        exit_time: timestamp,
        trade_type: "IronCondor"@,
        metadata: TradeMetadata {
            entry_premium: position.entry_premium,
            max_profit: position.entry_premium,
            max_loss: position.spec_max_loss() as i64,
            short_call_strike: position.short_call.strike,
            long_call_strike: position.long_call.strike,
            short_put_strike: position.short_put.strike,
            long_put_strike: position.long_put.strike,
            underlying_price: chain_price,
            open: true,
        },
    }
}

/// A trade record finalized by an exit at the given premium and time.
pub open spec fn spec_close_trade(t: TradeView, exit_premium: i64, timestamp: i64) -> TradeView {
    TradeView {
        id: t.id,
        symbol: t.symbol,
        entry_price: t.entry_price,
        exit_price: exit_premium,
        quantity: t.quantity,
        entry_time: t.entry_time,
        exit_time: timestamp,
        trade_type: t.trade_type,
        metadata: TradeMetadata {
            entry_premium: t.metadata.entry_premium,
            max_profit: t.metadata.max_profit,
            max_loss: t.metadata.max_loss,
            short_call_strike: t.metadata.short_call_strike,
            long_call_strike: t.metadata.long_call_strike,
            short_put_strike: t.metadata.short_put_strike,
            long_put_strike: t.metadata.long_put_strike,
            underlying_price: t.metadata.underlying_price,
            open: false,
        },
    }
}

/// Commission for moving a four-legged position of the given quantity.
pub open spec fn spec_commission(bcfg: BacktestConfig, quantity: u32) -> int {
    bcfg.commission_per_contract * quantity * 4
}

/// One snapshot of the run fold: record equity, pick the nearest
/// expiration's chain, evaluate the strategy, and apply the signal to
/// capital, open trades and ledger.
pub open spec fn spec_run_step(
    bcfg: BacktestConfig,
    scfg: IronCondorConfig,
    rs: RunView,
    e: EnhancedMarketEvent,
    id: u128,
) -> RunView {
    let curve1 = rs.curve.insert(e.timestamp, rs.capital as i128);
    match spec_event_chain(e) {
        Option::None => RunView {
            strat: rs.strat,
            capital: rs.capital,
            active_trades: rs.active_trades,
            ledger: rs.ledger,
            curve: curve1,
        },
        Option::Some(chain) => {
            let (st2, sig) = spec_step(scfg, rs.strat, chain, id);
            match sig {
                Option::None => RunView {
                    strat: st2,
                    capital: rs.capital,
                    active_trades: rs.active_trades,
                    ledger: rs.ledger,
                    curve: curve1,
                },
                Option::Some(SignalView::Enter { position, timestamp }) => {
                    let commission = spec_commission(bcfg, position.quantity);
                    let trade = spec_open_trade(position, e.symbol@,
                        chain.underlying_price, timestamp);
                    RunView {
                        strat: st2,
                        capital: rs.capital + position.entry_premium - commission,
                        active_trades: rs.active_trades.push(trade),
                        ledger: rs.ledger,
                        curve: curve1,
                    }
                },
                Option::Some(SignalView::Exit { position_id, exit_premium, timestamp, .. }) => {
                    let fi = spec_find_trade(rs.active_trades, position_id);
                    if fi < rs.active_trades.len() {
                        let t0 = rs.active_trades[fi];
                        let commission = spec_commission(bcfg, t0.quantity);
                        RunView {
                            strat: st2,
                            capital: rs.capital + (t0.entry_price - exit_premium)
                                - commission,
                            active_trades: rs.active_trades.remove(fi),
                            ledger: rs.ledger.push(
                                spec_close_trade(t0, exit_premium, timestamp)),
                            curve: curve1,
                        }
                    } else {
                        // Orphan exit: the signal names no open trade; it
                        // is dropped.
                        RunView {
                            strat: st2,
                            capital: rs.capital,
                            active_trades: rs.active_trades,
                            ledger: rs.ledger,
                            curve: curve1,
                        }
                    }
                },
            }
        },
    }
}

/// The run fold over an event sequence, in arrival order, consuming one
/// fresh identifier per event.
pub open spec fn spec_run(
    bcfg: BacktestConfig,
    scfg: IronCondorConfig,
    rs0: RunView,
    events: Seq<EnhancedMarketEvent>,
    ids: Seq<u128>,
) -> RunView
    decreases events.len(),
{
    if events.len() == 0 {
        rs0
    } else {
        spec_run_step(bcfg, scfg,
            spec_run(bcfg, scfg, rs0, events.drop_last(), ids.drop_last()),
            events.last(),
            if ids.len() > 0 {
                ids.last()
            } else {
                0
            })
    }
}

/// Runs a backtest for a given strategy and recorded market data.
pub struct BacktestRunner {
    /// Backtest configuration.
    pub config: BacktestConfig,
    /// Market data generator.
    pub market_generator: HistoricalMarketGenerator,
    /// Strategy signal generator.
    pub strategy: IronCondorSignalGenerator,
    /// Trades executed during the backtest.
    pub trades: Vec<Trade>,
    /// Current capital, in cents.
    pub current_capital: i128,
    /// Equity curve, keyed by snapshot timestamp.
    pub equity_curve: EquityCurve,
}

/// The starting fold state of a run.
pub open spec fn spec_run_init(bcfg: BacktestConfig, st0: StateView) -> RunView {
    RunView {
        strat: st0,
        capital: bcfg.initial_capital as int,
        active_trades: Seq::empty(),
        ledger: Seq::empty(),
        curve: Map::empty(),
    }
}

/// What a finished run delivers for a given sequence of drawn position
/// identifiers: the folded capital, the folded ledger with the trades
/// still open appended at the end (flagged open), the folded equity
/// curve, and the strategy's folded state.
pub open spec fn run_delivers(
    bcfg: BacktestConfig,
    scfg: IronCondorConfig,
    st0: StateView,
    events: Seq<EnhancedMarketEvent>,
    ids: Seq<u128>,
    capital: i128,
    ledger: Seq<TradeView>,
    curve: Map<i64, i128>,
    strat: StateView,
) -> bool {
    let rs = spec_run(bcfg, scfg, spec_run_init(bcfg, st0), events, ids);
    &&& ids.len() == events.len()
    &&& capital == rs.capital
    &&& ledger == rs.ledger + rs.active_trades
    &&& curve == rs.curve
    &&& strat == rs.strat
}

impl BacktestRunner {
    /// Create a new backtest runner, its capital at the configured
    /// starting amount.
    pub fn new(
        config: BacktestConfig,
        market_generator: HistoricalMarketGenerator,
        strategy: IronCondorSignalGenerator,
    ) -> (r: Self)
        ensures
            r.config == config,
            r.market_generator == market_generator,
            r.strategy == strategy,
            r.trades@.len() == 0,
            r.current_capital == config.initial_capital as i128,
            r.equity_curve@ == Map::<i64, i128>::empty(),
    {
        let current_capital = config.initial_capital as i128;
        BacktestRunner {
            config,
            market_generator,
            strategy,
            trades: Vec::new(),
            current_capital,
            equity_curve: EquityCurve::new(),
        }
    }

    /// Run the backtest over the remaining recorded events, strictly in
    /// arrival order: record mark-to-market equity, evaluate the
    /// strategy against the nearest-expiration chain, apply entry and
    /// exit signals to the capital ledger, and append any trades still
    /// open at the end of the stream to the ledger, flagged open.  The
    /// whole run is pinned by the fold `spec_run`, up to the randomly
    /// drawn identifiers of entered positions; the returned metrics are
    /// exactly the metrics of the final capital and ledger.
    #[verifier::rlimit(100)]
    pub fn run(&mut self) -> (r: BacktestMetrics)
        requires
            old(self).config.wf(),
            old(self).strategy.config.wf(),
            state_wf(old(self).strategy.state@),
            old(self).market_generator.current_idx
                <= old(self).market_generator.events@.len(),
            old(self).market_generator.events@.len() <= TRADES_LEN_LIMIT,
            forall|i: int| #![trigger old(self).market_generator.events@[i]]
                old(self).market_generator.current_idx <= i
                    < old(self).market_generator.events@.len()
                ==> event_wf(old(self).market_generator.events@[i]),
        ensures
            final(self).config == old(self).config,
            final(self).strategy.config == old(self).strategy.config,
            final(self).market_generator.symbol == old(self).market_generator.symbol,
            final(self).market_generator.events == old(self).market_generator.events,
            final(self).market_generator.current_idx
                == old(self).market_generator.events@.len(),
            state_wf(final(self).strategy.state@),
            trades_wf(final(self).trades@),
            exists|ids: Seq<u128>| run_delivers(
                old(self).config,
                old(self).strategy.config,
                old(self).strategy.state@,
                old(self).market_generator.events@.skip(
                    old(self).market_generator.current_idx as int),
                ids,
                final(self).current_capital,
                trades_views(final(self).trades@),
                final(self).equity_curve@,
                final(self).strategy.state@,
            ),
            metrics_match(r, old(self).config.initial_capital as int,
                final(self).current_capital as int, final(self).trades@),
    {
        let start = self.market_generator.current_idx;
        let n = self.market_generator.events.len();
        let initial = self.config.initial_capital;
        let mut current_capital: i128 = initial as i128;
        let mut trades: Vec<Trade> = Vec::new();
        let mut active: Vec<Trade> = Vec::new();
        let mut curve = EquityCurve::new();

        let ghost bcfg = self.config;
        let ghost scfg = self.strategy.config;
        let ghost st0 = self.strategy.state@;
        let ghost evs = self.market_generator.events@;
        let ghost rs0 = spec_run_init(bcfg, st0);
        let ghost mut ids: Seq<u128> = Seq::empty();

        proof {
            assert(evs.subrange(start as int, start as int)
                =~= Seq::<EnhancedMarketEvent>::empty());
            assert(trades_views(trades@) =~= Seq::<TradeView>::empty());
            assert(trades_views(active@) =~= Seq::<TradeView>::empty());
        }

        let mut i: usize = start;
        while i < n
            invariant
                start <= i <= n,
                n == evs.len(),
                n <= TRADES_LEN_LIMIT,
                self.config == bcfg,
                bcfg.wf(),
                initial == bcfg.initial_capital,
                self.strategy.config == scfg,
                scfg.wf(),
                self.market_generator.events@ == evs,
                self.market_generator.events == old(self).market_generator.events,
                self.market_generator.current_idx == start,
                self.market_generator.symbol == old(self).market_generator.symbol,
                forall|j: int| #![trigger evs[j]] start <= j < n ==> event_wf(evs[j]),
                state_wf(self.strategy.state@),
                trades_wf(trades@),
                trades_wf(active@),
                trades@.len() + active@.len() <= i - start,
                ids.len() == i - start,
                rs0 == spec_run_init(bcfg, st0),
                initial - (i - start) * RUN_STEP_LIMIT <= current_capital
                    <= initial + (i - start) * RUN_STEP_LIMIT,
                ({
                    let rs = spec_run(bcfg, scfg, rs0,
                        evs.subrange(start as int, i as int), ids);
                    &&& rs.strat == self.strategy.state@
                    &&& rs.capital == current_capital as int
                    &&& rs.active_trades == trades_views(active@)
                    &&& rs.ledger == trades_views(trades@)
                    &&& rs.curve == curve@
                }),
            decreases n - i,
        {
            let ghost pre_seg = evs.subrange(start as int, i as int);
            let ghost post_seg = evs.subrange(start as int, i as int + 1);
            let ghost rs_pre = spec_run(bcfg, scfg, rs0, pre_seg, ids);
            let ghost ids_pre = ids;
            proof {
                assert(post_seg.drop_last() =~= pre_seg);
                assert(post_seg.last() == evs[i as int]);
                assert(event_wf(evs[i as int]));
            }

            let event_ts = self.market_generator.events[i].timestamp;
            curve.record(event_ts, current_capital);

            let chain_opt = self.market_generator.events[i].nearest_chain();
            match chain_opt {
                None => {
                    proof {
                        ids = ids.push(0u128);
                        assert(ids.drop_last() =~= ids_pre);
                        let rs_post = spec_run(bcfg, scfg, rs0, post_seg, ids);
                        assert(rs_post == spec_run_step(bcfg, scfg, rs_pre,
                            evs[i as int], 0u128));
                    }
                },
                Some(chain) => {
                    proof {
                        lemma_nearest_idx_char(evs[i as int].options_chains@);
                        assert(chain.wf());
                    }
                    let ghost st_before = self.strategy.state@;
                    let signal = self.strategy.generate_signal_with_options_chain(chain);
                    let ghost id = choose|id: u128|
                        (self.strategy.state@, signal_opt_view(signal))
                            == spec_step(scfg, st_before, *chain, id);
                    proof {
                        ids = ids.push(id);
                        assert(ids.drop_last() =~= ids_pre);
                    }

                    match signal {
                        None => {
                            proof {
                                let rs_post = spec_run(bcfg, scfg, rs0, post_seg, ids);
                                assert(rs_post == spec_run_step(bcfg, scfg, rs_pre,
                                    evs[i as int], id));
                            }
                        },
                        Some(IronCondorSignal::Enter { position, timestamp }) => {
                            proof {
                                crate::lemma_mul_abs_bound(
                                    self.config.commission_per_contract as int,
                                    PRICE_LIMIT as int, position.quantity as int,
                                    QTY_LIMIT as int);
                            }
                            let commission: i64 = self.config.commission_per_contract
                                * (position.quantity as i64) * 4;
                            current_capital = current_capital
                                + (position.entry_premium as i128) - (commission as i128);

                            let max_loss = position.max_loss();
                            let trade = Trade {
                                id: position.id,
                                symbol: self.market_generator.events[i].symbol.clone(),
                                entry_price: position.entry_premium,
                                exit_price: 0,
                                quantity: position.quantity,
                                entry_time: timestamp,
                                exit_time: timestamp,
                                trade_type: "IronCondor".to_owned(),
                                metadata: TradeMetadata {
                                    entry_premium: position.entry_premium,
                                    max_profit: position.entry_premium,
                                    max_loss,
                                    short_call_strike: position.short_call.strike,
                                    long_call_strike: position.long_call.strike,
                                    short_put_strike: position.short_put.strike,
                                    long_put_strike: position.long_put.strike,
                                    underlying_price: chain.underlying_price,
                                    open: true,
                                },
                            };
                            active.push(trade);
                            proof {
                                assert(active@.last()@ == spec_open_trade(position,
                                    evs[i as int].symbol@, chain.underlying_price,
                                    timestamp));
                                assert(trades_views(active@)
                                    =~= rs_pre.active_trades.push(active@.last()@));
                                let rs_post = spec_run(bcfg, scfg, rs0, post_seg, ids);
                                assert(rs_post == spec_run_step(bcfg, scfg, rs_pre,
                                    evs[i as int], id));
                            }
                        },
                        Some(IronCondorSignal::Exit {
                            position_id,
                            exit_premium,
                            timestamp,
                            reason,
                        }) => {
                            let na = active.len();
                            let mut j: usize = 0;
                            let mut found: bool = false;
                            while j < na && !found
                                invariant
                                    j <= na,
                                    na == active@.len(),
                                    forall|k: int| #![trigger active@[k]] 0 <= k < j
                                        ==> active@[k].id != position_id,
                                    found ==> j < na && active@[j as int].id == position_id,
                                decreases na - j + (if found { 0int } else { 1int }),
                            {
                                if active[j].id == position_id {
                                    found = true;
                                } else {
                                    j = j + 1;
                                }
                            }
                            proof {
                                lemma_find_trade_char(trades_views(active@), position_id);
                                let fi = spec_find_trade(trades_views(active@), position_id);
                                if found {
                                    if fi < j {
                                        assert(trades_views(active@)[fi].id != position_id);
                                    }
                                    if (j as int) < fi {
                                        assert(trades_views(active@)[j as int].id
                                            == position_id);
                                    }
                                    assert(fi == j as int);
                                } else {
                                    if fi < active@.len() {
                                        assert(trades_views(active@)[fi].id == position_id);
                                    }
                                    assert(fi == active@.len());
                                }
                            }
                            if found {
                                let ghost t0v = active@[j as int]@;
                                let mut t = active.remove(j);
                                t.exit_price = exit_premium;
                                t.exit_time = timestamp;
                                t.metadata.open = false;
                                proof {
                                    crate::lemma_mul_abs_bound(
                                        self.config.commission_per_contract as int,
                                        PRICE_LIMIT as int, t.quantity as int,
                                        TRADE_QTY_LIMIT as int);
                                }
                                let commission: i64 = self.config.commission_per_contract
                                    * (t.quantity as i64) * 4;
                                let pnl: i64 = t.entry_price - exit_premium;
                                current_capital = current_capital + (pnl as i128)
                                    - (commission as i128);
                                proof {
                                    assert(t@ == spec_close_trade(t0v, exit_premium,
                                        timestamp));
                                }
                                trades.push(t);
                                proof {
                                    assert(trades_views(active@)
                                        =~= rs_pre.active_trades.remove(j as int));
                                    assert(trades_views(trades@)
                                        =~= rs_pre.ledger.push(spec_close_trade(t0v,
                                            exit_premium, timestamp)));
                                    let rs_post = spec_run(bcfg, scfg, rs0, post_seg, ids);
                                    assert(rs_post == spec_run_step(bcfg, scfg, rs_pre,
                                        evs[i as int], id));
                                }
                            } else {
                                proof {
                                    let rs_post = spec_run(bcfg, scfg, rs0, post_seg, ids);
                                    assert(rs_post == spec_run_step(bcfg, scfg, rs_pre,
                                        evs[i as int], id));
                                }
                            }
                        },
                    }
                },
            }

            i = i + 1;
        }

        proof {
            assert(evs.subrange(start as int, n as int) =~= evs.skip(start as int));
        }
        let ghost rs_final = spec_run(bcfg, scfg, rs0, evs.skip(start as int), ids);
        let ghost ledger0 = trades_views(trades@);

        // Any trades still open are appended to the ledger, staying
        // flagged open.
        let na = active.len();
        let mut k: usize = 0;
        while k < na
            invariant
                k <= na,
                na == active@.len(),
                trades_wf(trades@),
                trades_wf(active@),
                trades_views(active@) == rs_final.active_trades,
                trades_views(trades@)
                    == ledger0 + trades_views(active@).take(k as int),
            decreases na - k,
        {
            let t = active[k].duplicate();
            let ghost before = trades@;
            trades.push(t);
            proof {
                assert(t@ == trades_views(active@)[k as int]);
                assert(trades_views(trades@) =~= trades_views(before).push(t@));
                assert(trades_views(active@).take(k as int + 1)
                    =~= trades_views(active@).take(k as int).push(t@));
                assert(ledger0 + trades_views(active@).take(k as int + 1)
                    =~= (ledger0 + trades_views(active@).take(k as int)).push(t@));
            }
            k = k + 1;
        }
        proof {
            assert(trades_views(active@).take(na as int) =~= trades_views(active@));
            assert(trades_views(trades@) == ledger0 + rs_final.active_trades);
        }

        self.trades = trades;
        self.current_capital = current_capital;
        self.equity_curve = curve;
        self.market_generator.current_idx = n;

        proof {
            assert(run_delivers(bcfg, scfg, st0, evs.skip(start as int), ids,
                self.current_capital, trades_views(self.trades@), self.equity_curve@,
                self.strategy.state@));
        }

        let mut result = BacktestMetrics::new(initial);
        proof {
            assert((n - start) * RUN_STEP_LIMIT <= TRADES_LEN_LIMIT * RUN_STEP_LIMIT)
                by (nonlinear_arith)
                requires 0 <= n - start <= TRADES_LEN_LIMIT;
        }
        result.calculate(self.current_capital, &self.trades);
        result
    }
}

/// A faithful copy of a market event.
pub fn duplicate_event(e: &EnhancedMarketEvent) -> (r: EnhancedMarketEvent)
    ensures
        event_like(r, *e),
{
    let n = e.options_chains.len();
    let mut chains: Vec<OptionsChain> = Vec::new();
    let mut i: usize = 0;
    while i < n
        invariant
            i <= n,
            n == e.options_chains@.len(),
            chains@.len() == i,
            forall|j: int| #![trigger chains@[j]] 0 <= j < i
                ==> chain_like(chains@[j], e.options_chains@[j]),
        decreases n - i,
    {
        chains.push(e.options_chains[i].duplicate());
        i = i + 1;
    }
    EnhancedMarketEvent {
        symbol: e.symbol.clone(),
        underlying_price: e.underlying_price,
        volume: e.volume,
        implied_volatility: e.implied_volatility,
        options_chains: chains,
        timestamp: e.timestamp,
    }
}

} // verus!
