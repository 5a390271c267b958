//! Iron-condor strategy state machine.
//!
//! Per chain snapshot the generator decides at most one signal: enter a
//! freshly constructed four-leg spread, or exit one registered position.
//! Strike targets sit five percent outside the underlying price; the
//! protective wings ten dollars beyond the short strikes, falling back to
//! five when no contract trades there.

use vstd::prelude::*;
use crate::SECS_PER_DAY;
use crate::wf_time;
use crate::spec_days_between;
use crate::options_data::OptionsChain;
use crate::options_data::OptionType;
use crate::options_data::PRICE_LIMIT;
use crate::options_data::QUOTE_LIMIT;
use crate::iron_condor_position::IronCondorPosition;
use crate::iron_condor_position::spec_build_position;
use crate::iron_condor_position::QTY_LIMIT;
use crate::iron_condor_position::PREMIUM_LIMIT;
use crate::strike_table::TARGET_LIMIT;
use crate::strike_table::lemma_closest_is_key;

verus! {

/// Largest configured percentage threshold, in basis points.
pub const BP_LIMIT: u32 = 1_000_000;

/// Configuration for the iron-condor strategy.  Percentage-like values
/// are in basis points.
#[derive(Clone, Debug)]
pub struct IronCondorConfig {
    /// Underlying symbol.
    pub symbol: String,
    /// Days-to-expiration threshold for entries.
    pub dte_threshold: u32,
    /// Width between strikes, in basis points of the underlying price
    /// (reserved; strike targeting uses fixed offsets).
    pub width_percentage: u32,
    /// Delta target for short strikes, in basis points (reserved).
    pub delta_target: u32,
    /// Exit profit target, in basis points of maximum profit.
    pub profit_target_pct: u32,
    /// Stop loss, in basis points of maximum profit.
    pub stop_loss_pct: u32,
    /// Days to expiration at which a position is closed.
    pub exit_dte: u32,
    /// Same-day ("zero DTE") mode: a seven-day entry gate instead of one.
    pub zero_dte: bool,
}

impl IronCondorConfig {
    /// Thresholds the engine can do arithmetic on.
    pub open spec fn wf(self) -> bool {
        &&& self.profit_target_pct <= BP_LIMIT
        &&& self.stop_loss_pct <= BP_LIMIT
    }
}

impl Default for IronCondorConfig {
    /// The stock configuration: a weekly zero-DTE condor on SPY with a
    /// fifty percent profit target and a seventy-five percent stop.
    fn default() -> (r: Self)
        ensures
            r.symbol@ == "SPY"@,
            r.dte_threshold == 7,
            r.width_percentage == 500,
            r.delta_target == 1600,
            r.profit_target_pct == 5000,
            r.stop_loss_pct == 7500,
            r.exit_dte == 0,
            r.zero_dte == true,
            r.wf(),
    {
        IronCondorConfig {
            symbol: "SPY".to_owned(),
            dte_threshold: 7,
            width_percentage: 500,
            delta_target: 1600,
            profit_target_pct: 5000,
            stop_loss_pct: 7500,
            exit_dte: 0,
            zero_dte: true,
        }
    }
}

/// Mutable decision state of the strategy.
#[derive(Clone, Debug)]
pub struct IronCondorState {
    /// Registry of open positions, in entry order.
    pub active_positions: Vec<IronCondorPosition>,
    /// Latest underlying price seen, in cents.
    pub current_price: i64,
    /// Timestamp of the last entry signal.
    pub last_signal: Option<i64>,
}

/// Spec-level image of the strategy state.
pub struct StateView {
    pub active_positions: Seq<IronCondorPosition>,
    pub current_price: i64,
    pub last_signal: Option<i64>,
}

impl View for IronCondorState {
    type V = StateView;

    open spec fn view(&self) -> StateView {
        StateView {
            active_positions: self.active_positions@,
            current_price: self.current_price,
            last_signal: self.last_signal,
        }
    }
}

/// A strategy state the engine can evaluate: registered positions are
/// well-formed and the last-signal timestamp, if any, is workable.
pub open spec fn state_wf(v: StateView) -> bool {
    &&& forall|i: int| #![trigger v.active_positions[i]]
            0 <= i < v.active_positions.len() ==> v.active_positions[i].wf()
    &&& match v.last_signal {
            Option::Some(t) => wf_time(t),
            Option::None => true,
        }
}

impl Default for IronCondorState {
    fn default() -> (r: Self)
        ensures
            r@.active_positions.len() == 0,
            r@.current_price == 0,
            r@.last_signal is None,
            state_wf(r@),
    {
        IronCondorState {
            active_positions: Vec::new(),
            current_price: 0,
            last_signal: None,
        }
    }
}

/// Trading signal decided from one chain snapshot.
#[derive(Clone, Debug)]
pub enum IronCondorSignal {
    /// Enter the newly constructed position.
    Enter { position: IronCondorPosition, timestamp: i64 },
    /// Exit a registered position at the given premium.
    Exit { position_id: u128, exit_premium: i64, timestamp: i64, reason: String },
}

/// Spec-level image of a signal; the exit reason as its character
/// sequence.
pub enum SignalView {
    Enter { position: IronCondorPosition, timestamp: i64 },
    Exit { position_id: u128, exit_premium: i64, timestamp: i64, reason: Seq<char> },
}

impl View for IronCondorSignal {
    type V = SignalView;

    open spec fn view(&self) -> SignalView {
        match self {
            IronCondorSignal::Enter { position, timestamp } => SignalView::Enter {
                position: *position,
                timestamp: *timestamp,
            },
            IronCondorSignal::Exit { position_id, exit_premium, timestamp, reason } =>
                SignalView::Exit {
                    position_id: *position_id,
                    exit_premium: *exit_premium,
                    timestamp: *timestamp,
                    reason: reason@,
                },
        }
    }
}

/// The view of an optional signal.
pub open spec fn signal_opt_view(r: Option<IronCondorSignal>) -> Option<SignalView> {
    match r {
        Option::Some(s) => Some(s@),
        Option::None => None,
    }
}

/// Entry gate in seconds: a week in zero-DTE mode, a day otherwise.
pub open spec fn spec_gate_secs(zero_dte: bool) -> int {
    if zero_dte {
        7 * SECS_PER_DAY as int
    } else {
        1 * SECS_PER_DAY as int
    }
}

/// Entry is evaluated only on an empty registry, and only once enough
/// time has elapsed since the last entry signal.
pub open spec fn spec_should_enter(cfg: IronCondorConfig, st: StateView, now: int) -> bool {
    &&& st.active_positions.len() == 0
    &&& match st.last_signal {
            Option::Some(last) => now - last > spec_gate_secs(cfg.zero_dte),
            Option::None => true,
        }
}

/// Strike target in whole dollars: the underlying price (in cents)
/// scaled by `factor` percent, rounded half away from zero.
pub open spec fn spec_round_target(underlying_cents: int, factor: int) -> int {
    (underlying_cents * factor + 5000) / 10000
}

/// The position the strategy would construct from this chain under this
/// identifier, if every leg resolves, the wings sit strictly outside the
/// short strikes, and the spread opens at a net credit.
pub open spec fn spec_try_build(cfg: IronCondorConfig, chain: OptionsChain, id: u128)
    -> Option<IronCondorPosition> {
    let u = chain.underlying_price as int;
    let sc_target = spec_round_target(u, 105);
    let sp_target = spec_round_target(u, 95);
    match (chain.calls.spec_closest(100 * sc_target), chain.puts.spec_closest(100 * sp_target)) {
        (Option::Some(sck), Option::Some(spk)) => {
            let lck = match chain.calls.spec_closest(100 * (sck + 10)) {
                Option::Some(k) => k,
                Option::None => (sck + 5) as u32,
            };
            let lpk = match chain.puts.spec_closest(100 * (spk - 10)) {
                Option::Some(k) => k,
                Option::None => if spk >= 5 {
                    (spk - 5) as u32
                } else {
                    0
                },
            };
            match (chain.calls.spec_get(sck), chain.calls.spec_get(lck),
                   chain.puts.spec_get(spk), chain.puts.spec_get(lpk)) {
                (Option::Some(sc), Option::Some(lc), Option::Some(sp), Option::Some(lp)) => {
                    if lck > sck && lpk < spk {
                        let pos = spec_build_position(cfg.symbol, sc, lc, sp, lp, 1,
                            chain.timestamp, id);
                        if pos.entry_premium > 0 {
                            Some(pos)
                        } else {
                            None
                        }
                    } else {
                        None
                    }
                },
                _ => None,
            }
        },
        _ => None,
    }
}

/// No position the strategy constructs ever has its long call at or
/// below its short call, nor its long put at or above its short put:
/// the protective wings sit strictly outside the short strikes.
pub proof fn lemma_built_position_wings(cfg: IronCondorConfig, chain: OptionsChain, id: u128)
    requires
        chain.wf(),
        spec_try_build(cfg, chain, id) is Some,
    ensures
        spec_try_build(cfg, chain, id)->Some_0.long_call.strike
            > spec_try_build(cfg, chain, id)->Some_0.short_call.strike,
        spec_try_build(cfg, chain, id)->Some_0.short_put.strike
            > spec_try_build(cfg, chain, id)->Some_0.long_put.strike,
        spec_try_build(cfg, chain, id)->Some_0.wf(),
        spec_try_build(cfg, chain, id)->Some_0.entry_premium > 0,
{
    let u = chain.underlying_price as int;
    let sc_target = spec_round_target(u, 105);
    let sp_target = spec_round_target(u, 95);
    let sck = chain.calls.spec_closest(100 * sc_target)->Some_0;
    let spk = chain.puts.spec_closest(100 * sp_target)->Some_0;
    let lck = match chain.calls.spec_closest(100 * (sck + 10)) {
        Option::Some(k) => k,
        Option::None => (sck + 5) as u32,
    };
    let lpk = match chain.puts.spec_closest(100 * (spk - 10)) {
        Option::Some(k) => k,
        Option::None => if spk >= 5 {
            (spk - 5) as u32
        } else {
            0
        },
    };
    let sc = chain.calls.spec_get(sck)->Some_0;
    let lc = chain.calls.spec_get(lck)->Some_0;
    let sp = chain.puts.spec_get(spk)->Some_0;
    let lp = chain.puts.spec_get(lpk)->Some_0;
    assert(lck > sck && lpk < spk);
    assert(lc.strike >= 100 * lck);
    assert(sc.strike < 100 * sck + 100);
    assert(sp.strike >= 100 * spk);
    assert(lp.strike < 100 * lpk + 100);
    let p = spec_try_build(cfg, chain, id)->Some_0;
    assert(p == spec_build_position(cfg.symbol, sc, lc, sp, lp, 1, chain.timestamp, id));
    crate::lemma_mul_abs_bound(
        sc.bid + sp.bid - lc.ask - lp.ask, 2 * QUOTE_LIMIT as int, 1, 1);
}

/// The profit target is reached when profit, as a share of maximum
/// profit, meets the configured threshold; with no positive maximum
/// profit the share counts as zero.
pub open spec fn spec_profit_target_hit(cfg: IronCondorConfig, p: IronCondorPosition, u: int)
    -> bool {
    if p.entry_premium > 0 {
        10000 * p.spec_pnl(u) >= cfg.profit_target_pct * p.entry_premium
    } else {
        cfg.profit_target_pct == 0
    }
}

/// The stop loss is reached when the loss, as a share of maximum profit,
/// meets the configured threshold.
pub open spec fn spec_stop_loss_hit(cfg: IronCondorConfig, p: IronCondorPosition, u: int)
    -> bool {
    if p.entry_premium > 0 {
        10000 * p.spec_pnl(u) <= -(cfg.stop_loss_pct * p.entry_premium)
    } else {
        cfg.stop_loss_pct == 0
    }
}

/// More than a day has elapsed since the last entry signal.
pub open spec fn spec_time_exit(last_signal: Option<i64>, now: int) -> bool {
    match last_signal {
        Option::Some(last) => now - last > SECS_PER_DAY as int,
        Option::None => false,
    }
}

/// The short call has at most the configured days to expiration left.
pub open spec fn spec_dte_exit(cfg: IronCondorConfig, p: IronCondorPosition, now: int) -> bool {
    spec_days_between(p.short_call.expiration as int, now) <= cfg.exit_dte
}

/// A position leaves when any of the four triggers fires.
pub open spec fn spec_should_exit(
    cfg: IronCondorConfig,
    last_signal: Option<i64>,
    p: IronCondorPosition,
    u: int,
    now: int,
) -> bool {
    ||| spec_profit_target_hit(cfg, p, u)
    ||| spec_stop_loss_hit(cfg, p, u)
    ||| spec_time_exit(last_signal, now)
    ||| spec_dte_exit(cfg, p, now)
}

/// The reported reason, in fixed precedence: profit target, then stop
/// loss, then days-to-expiration, then elapsed time.
pub open spec fn spec_exit_reason(
    cfg: IronCondorConfig,
    p: IronCondorPosition,
    u: int,
    now: int,
) -> Seq<char> {
    if spec_profit_target_hit(cfg, p, u) {
        "profit target"@
    } else if spec_stop_loss_hit(cfg, p, u) {
        "stop loss"@
    } else if spec_dte_exit(cfg, p, now) {
        "DTE exit"@
    } else {
        "time exit"@
    }
}

/// Premium paid to close the four legs at current quotes: short asks
/// paid back minus long bids collected, scaled by the contract count.
pub open spec fn spec_exit_premium(p: IronCondorPosition) -> int {
    (p.short_call.ask + p.short_put.ask - p.long_call.bid - p.long_put.bid) * p.quantity
}

/// Index of the first registered position with a firing exit trigger;
/// the registry length when none fires.
pub open spec fn spec_first_exit_index(
    cfg: IronCondorConfig,
    last_signal: Option<i64>,
    ps: Seq<IronCondorPosition>,
    u: int,
    now: int,
) -> int
    decreases ps.len(),
{
    if ps.len() == 0 {
        0
    } else if spec_should_exit(cfg, last_signal, ps[0], u, now) {
        0
    } else {
        1 + spec_first_exit_index(cfg, last_signal, ps.skip(1), u, now)
    }
}

/// The first-exit index is in range, nothing before it fires, and it
/// fires itself whenever it is in range.
pub proof fn lemma_first_exit_char(
    cfg: IronCondorConfig,
    last_signal: Option<i64>,
    ps: Seq<IronCondorPosition>,
    u: int,
    now: int,
)
    ensures
        0 <= spec_first_exit_index(cfg, last_signal, ps, u, now) <= ps.len(),
        forall|j: int| #![trigger ps[j]]
            0 <= j < spec_first_exit_index(cfg, last_signal, ps, u, now)
            ==> !spec_should_exit(cfg, last_signal, ps[j], u, now),
        spec_first_exit_index(cfg, last_signal, ps, u, now) < ps.len()
            ==> spec_should_exit(cfg, last_signal,
                ps[spec_first_exit_index(cfg, last_signal, ps, u, now)], u, now),
    decreases ps.len(),
{
    if ps.len() == 0 {
    } else if spec_should_exit(cfg, last_signal, ps[0], u, now) {
    } else {
        lemma_first_exit_char(cfg, last_signal, ps.skip(1), u, now);
        let fi = spec_first_exit_index(cfg, last_signal, ps, u, now);
        assert forall|j: int| #![trigger ps[j]] 0 <= j < fi implies
            !spec_should_exit(cfg, last_signal, ps[j], u, now) by {
            if j > 0 {
                assert(ps.skip(1)[j - 1] == ps[j]);
            }
        }
        if fi < ps.len() {
            assert(ps.skip(1)[fi - 1] == ps[fi]);
        }
    }
}

/// One full evaluation of the strategy against one chain snapshot under
/// a given fresh identifier: the state afterwards and the signal, if any.
pub open spec fn spec_step(
    cfg: IronCondorConfig,
    st: StateView,
    chain: OptionsChain,
    id: u128,
) -> (StateView, Option<SignalView>) {
    let now = chain.timestamp;
    let u = chain.underlying_price as int;
    if spec_should_enter(cfg, st, now as int) && spec_try_build(cfg, chain, id) is Some {
        let pos = spec_try_build(cfg, chain, id)->Some_0;
        (StateView {
            active_positions: st.active_positions.push(pos),
            current_price: chain.underlying_price,
            last_signal: Some(now),
        }, Some(SignalView::Enter { position: pos, timestamp: now }))
    } else {
        let fi = spec_first_exit_index(cfg, st.last_signal, st.active_positions, u, now as int);
        if fi < st.active_positions.len() {
            let p = st.active_positions[fi];
            (StateView {
                active_positions: st.active_positions.remove(fi),
                current_price: chain.underlying_price,
                last_signal: st.last_signal,
            }, Some(SignalView::Exit {
                position_id: p.id,
                exit_premium: spec_exit_premium(p) as i64,
                timestamp: now,
                reason: spec_exit_reason(cfg, p, u, now as int),
            }))
        } else {
            (StateView {
                active_positions: st.active_positions,
                current_price: chain.underlying_price,
                last_signal: st.last_signal,
            }, None)
        }
    }
}

/// While any position is registered, an evaluation never yields a new
/// entry signal: at most one spread is open at a time.
pub proof fn lemma_no_reentry_while_open(
    cfg: IronCondorConfig,
    st: StateView,
    chain: OptionsChain,
    id: u128,
)
    requires
        st.active_positions.len() > 0,
    ensures
        match spec_step(cfg, st, chain, id).1 {
            Option::Some(SignalView::Enter { .. }) => false,
            _ => true,
        },
{
}

/// Within the entry gate -- seven days in zero-DTE mode, one day
/// otherwise -- of the last entry signal, an evaluation never yields a
/// new entry signal.
pub proof fn lemma_entry_suppressed_within_gate(
    cfg: IronCondorConfig,
    st: StateView,
    chain: OptionsChain,
    id: u128,
)
    requires
        st.last_signal is Some,
        chain.timestamp - st.last_signal->Some_0 <= spec_gate_secs(cfg.zero_dte),
    ensures
        match spec_step(cfg, st, chain, id).1 {
            Option::Some(SignalView::Enter { .. }) => false,
            _ => true,
        },
{
}

/// Signal generator for the iron-condor strategy.
#[derive(Clone, Debug)]
pub struct IronCondorSignalGenerator {
    pub config: IronCondorConfig,
    pub state: IronCondorState,
}

impl IronCondorSignalGenerator {
    pub fn new(config: IronCondorConfig) -> (r: Self)
        ensures
            r.config == config,
            r.state@.active_positions.len() == 0,
            r.state@.current_price == 0,
            r.state@.last_signal is None,
            state_wf(r.state@),
    {
        IronCondorSignalGenerator { config, state: Default::default() }
    }

    /// The key of the available strike nearest to the target, on the
    /// requested side of the chain; ties prefer the lower strike.
    pub fn find_closest_strike(
        &self,
        options_chain: &OptionsChain,
        target_strike: i64,
        option_type: OptionType,
    ) -> (r: Option<u32>)
        requires
            -TARGET_LIMIT <= target_strike <= TARGET_LIMIT,
        ensures
            r == match option_type {
                OptionType::Call => options_chain.calls.spec_closest(target_strike as int),
                OptionType::Put => options_chain.puts.spec_closest(target_strike as int),
            },
    {
        match option_type {
            OptionType::Call => options_chain.calls.closest_key(target_strike),
            OptionType::Put => options_chain.puts.closest_key(target_strike),
        }
    }

    /// Try to construct an iron condor from the chain: short strikes
    /// nearest five percent outside the underlying, wings nearest ten
    /// dollars beyond (five when absent), all four legs present, wings
    /// strictly outside the shorts, and a strictly positive net credit.
    fn create_iron_condor_position(&self, options_chain: &OptionsChain)
        -> (r: Option<IronCondorPosition>)
        requires
            options_chain.wf(),
        ensures
            match r {
                Option::Some(p) => {
                    &&& Some(p) == spec_try_build(self.config, *options_chain, p.id)
                    &&& p.wf()
                },
                Option::None => forall|id: u128|
                    spec_try_build(self.config, *options_chain, id) is None,
            },
    {
        let u = options_chain.underlying_price;
        let sc_target: i64 = (u * 105 + 5000) / 10000;
        let sp_target: i64 = (u * 95 + 5000) / 10000;

        let sck_opt = options_chain.calls.closest_key(100 * sc_target);
        let spk_opt = options_chain.puts.closest_key(100 * sp_target);
        let (sck, spk) = match (sck_opt, spk_opt) {
            (Some(a), Some(b)) => (a, b),
            _ => {
                return None;
            },
        };
        proof {
            lemma_closest_is_key(options_chain.calls, 100 * spec_round_target(u as int, 105));
            lemma_closest_is_key(options_chain.puts, 100 * spec_round_target(u as int, 95));
            assert(options_chain.calls.spec_get(sck) is Some);
            assert(options_chain.puts.spec_get(spk) is Some);
            assert(100 * sck <= QUOTE_LIMIT);
            assert(100 * spk <= QUOTE_LIMIT);
        }

        let lck = match options_chain.calls.closest_key(((sck as i64) + 10) * 100) {
            Some(k) => k,
            None => sck + 5,
        };
        let lpk = match options_chain.puts.closest_key(((spk as i64) - 10) * 100) {
            Some(k) => k,
            None => if spk >= 5 {
                spk - 5
            } else {
                0
            },
        };

        let sc = match options_chain.calls.get(sck) {
            Some(c) => c,
            None => {
                return None;
            },
        };
        let lc = match options_chain.calls.get(lck) {
            Some(c) => c,
            None => {
                return None;
            },
        };
        let sp = match options_chain.puts.get(spk) {
            Some(c) => c,
            None => {
                return None;
            },
        };
        let lp = match options_chain.puts.get(lpk) {
            Some(c) => c,
            None => {
                return None;
            },
        };

        if !(lck > sck && lpk < spk) {
            return None;
        }
        proof {
            assert(lc.strike >= 100 * lck);
            assert(sc.strike < 100 * sck + 100);
            assert(lc.strike > sc.strike);
            assert(sp.strike >= 100 * spk);
            assert(lp.strike < 100 * lpk + 100);
            assert(sp.strike > lp.strike);
        }

        let position = IronCondorPosition::new(
            self.config.symbol.clone(),
            sc.duplicate(),
            lc.duplicate(),
            sp.duplicate(),
            lp.duplicate(),
            1,
            options_chain.timestamp,
        );

        if position.entry_premium > 0 {
            Some(position)
        } else {
            None
        }
    }

    /// Whether any exit trigger fires for this position at the given
    /// underlying price and time.
    fn should_exit_position(
        &self,
        p: &IronCondorPosition,
        u: i64,
        current_time: i64,
    ) -> (r: bool)
        requires
            self.config.wf(),
            p.wf(),
            0 <= u <= PRICE_LIMIT,
            wf_time(current_time),
            match self.state.last_signal {
                Option::Some(l) => wf_time(l),
                Option::None => true,
            },
        ensures
            r == spec_should_exit(self.config, self.state.last_signal, *p, u as int,
                current_time as int),
    {
        let pnl = p.calculate_pnl(u);
        let maxp = p.entry_premium;
        let profit_target_reached: bool = if maxp > 0 {
            proof {
                crate::lemma_mul_abs_bound(self.config.profit_target_pct as int,
                    BP_LIMIT as int, maxp as int, PREMIUM_LIMIT as int);
            }
            10000 * (pnl as i128) >= (self.config.profit_target_pct as i128) * (maxp as i128)
        } else {
            self.config.profit_target_pct == 0
        };
        let stop_loss_reached: bool = if maxp > 0 {
            proof {
                crate::lemma_mul_abs_bound(self.config.stop_loss_pct as int,
                    BP_LIMIT as int, maxp as int, PREMIUM_LIMIT as int);
            }
            10000 * (pnl as i128) <= -((self.config.stop_loss_pct as i128) * (maxp as i128))
        } else {
            self.config.stop_loss_pct == 0
        };
        let time_exit: bool = match self.state.last_signal {
            Some(last) => current_time - last > SECS_PER_DAY,
            None => false,
        };
        let dte_exit: bool = p.days_to_expiration(current_time) <= self.config.exit_dte as i64;
        profit_target_reached || stop_loss_reached || time_exit || dte_exit
    }

    /// Evaluate the strategy once against a chain snapshot.
    ///
    /// At most one signal comes back: an entry with a newly constructed
    /// position when the registry is empty, enough time has elapsed since
    /// the last entry, and a credit spread resolves; otherwise the exit of the first
    /// registered position whose trigger fires, removed from the registry
    /// at once.  The whole evaluation is pinned by `spec_step`, up to the
    /// randomly drawn identifier of an entered position.
    pub fn generate_signal_with_options_chain(
        &mut self,
        options_chain: &OptionsChain,
    ) -> (r: Option<IronCondorSignal>)
        requires
            old(self).config.wf(),
            state_wf(old(self).state@),
            options_chain.wf(),
        ensures
            final(self).config == old(self).config,
            state_wf(final(self).state@),
            exists|id: u128|
                (final(self).state@, signal_opt_view(r))
                    == spec_step(old(self).config, old(self).state@, *options_chain, id),
            match r {
                Option::Some(IronCondorSignal::Enter { position, .. }) => position.wf(),
                Option::Some(IronCondorSignal::Exit { exit_premium, .. }) =>
                    -PREMIUM_LIMIT <= exit_premium <= PREMIUM_LIMIT,
                Option::None => true,
            },
    {
        let ghost cfg0 = self.config;
        let ghost st0 = self.state@;

        self.state.current_price = options_chain.underlying_price;
        let current_time = options_chain.timestamp;

        let no_active_positions = self.state.active_positions.len() == 0;
        let gate: i64 = if self.config.zero_dte {
            7 * SECS_PER_DAY
        } else {
            SECS_PER_DAY
        };
        let no_recent_signal = match self.state.last_signal {
            Some(last) => current_time - last > gate,
            None => true,
        };
        let should_enter = no_active_positions && no_recent_signal;
        proof {
            assert(should_enter == spec_should_enter(cfg0, st0, current_time as int));
        }

        if should_enter {
            if let Some(position) = self.create_iron_condor_position(options_chain) {
                let ghost id = position.id;
                let stored = position.duplicate();
                self.state.active_positions.push(stored);
                self.state.last_signal = Some(current_time);
                proof {
                    assert((self.state@, signal_opt_view(Some(
                        IronCondorSignal::Enter { position, timestamp: current_time })))
                        == spec_step(cfg0, st0, *options_chain, id));
                }
                return Some(IronCondorSignal::Enter { position, timestamp: current_time });
            }
        }


        let u = options_chain.underlying_price;
        let ghost ps = self.state.active_positions@;
        let n = self.state.active_positions.len();
        let mut i: usize = 0;
        let mut found: bool = false;
        while i < n && !found
            invariant
                i <= n,
                n == ps.len(),
                self.config == cfg0,
                self.state.active_positions@ == ps,
                self.state.last_signal == st0.last_signal,
                self.state.current_price == options_chain.underlying_price,
                cfg0.wf(),
                state_wf(self.state@),
                options_chain.wf(),
                u == options_chain.underlying_price,
                current_time == options_chain.timestamp,
                forall|j: int| #![trigger ps[j]] 0 <= j < i
                    ==> !spec_should_exit(cfg0, st0.last_signal, ps[j], u as int,
                        current_time as int),
                found ==> i < n && spec_should_exit(cfg0, st0.last_signal, ps[i as int],
                    u as int, current_time as int),
            decreases n - i + (if found { 0int } else { 1int }),
        {
            proof {
                assert(self.state@.active_positions[i as int].wf());
            }
            let p = &self.state.active_positions[i];
            if self.should_exit_position(p, u, current_time) {
                found = true;
            } else {
                i = i + 1;
            }
        }

        proof {
            lemma_first_exit_char(cfg0, st0.last_signal, ps, u as int, current_time as int);
        }

        if found {
            let ghost fi = spec_first_exit_index(cfg0, st0.last_signal, ps, u as int,
                current_time as int);
            proof {
                if fi < i {
                    assert(!spec_should_exit(cfg0, st0.last_signal, ps[fi], u as int,
                        current_time as int));
                }
                if i < fi {
                    assert(!spec_should_exit(cfg0, st0.last_signal, ps[i as int], u as int,
                        current_time as int));
                }
                assert(fi == i as int);
            }
            let p = &self.state.active_positions[i];
            let pnl = p.calculate_pnl(u);
            let maxp = p.entry_premium;
            let profit_target_reached: bool = if maxp > 0 {
                proof {
                    crate::lemma_mul_abs_bound(self.config.profit_target_pct as int,
                        BP_LIMIT as int, maxp as int, PREMIUM_LIMIT as int);
                }
                10000 * (pnl as i128) >= (self.config.profit_target_pct as i128)
                    * (maxp as i128)
            } else {
                self.config.profit_target_pct == 0
            };
            let stop_loss_reached: bool = if maxp > 0 {
                proof {
                    crate::lemma_mul_abs_bound(self.config.stop_loss_pct as int,
                        BP_LIMIT as int, maxp as int, PREMIUM_LIMIT as int);
                }
                10000 * (pnl as i128) <= -((self.config.stop_loss_pct as i128)
                    * (maxp as i128))
            } else {
                self.config.stop_loss_pct == 0
            };
            let dte_exit: bool = p.days_to_expiration(current_time)
                <= self.config.exit_dte as i64;
            let reason: &str = if profit_target_reached {
                "profit target"
            } else if stop_loss_reached {
                "stop loss"
            } else if dte_exit {
                "DTE exit"
            } else {
                "time exit"
            };
            let reason_string = reason.to_owned();

            let gross: i64 = p.short_call.ask + p.short_put.ask - p.long_call.bid
                - p.long_put.bid;
            proof {
                crate::lemma_mul_abs_bound(gross as int, 2 * QUOTE_LIMIT as int,
                    p.quantity as int, QTY_LIMIT as int);
            }
            let exit_premium: i64 = gross * (p.quantity as i64);
            let position_id = p.id;

            self.state.active_positions.remove(i);
            let result = Some(IronCondorSignal::Exit {
                position_id,
                exit_premium,
                timestamp: current_time,
                reason: reason_string,
            });
            proof {
                let wit: u128 = 0;
                assert((self.state@, signal_opt_view(result))
                    == spec_step(cfg0, st0, *options_chain, wit));
            }
            return result;
        }

        proof {
            let fi = spec_first_exit_index(cfg0, st0.last_signal, ps, u as int,
                current_time as int);
            if fi < ps.len() {
                assert(!spec_should_exit(cfg0, st0.last_signal, ps[fi], u as int,
                    current_time as int));
            }
            assert(fi == ps.len());
            let wit: u128 = 0;
            assert((self.state@, signal_opt_view(None::<IronCondorSignal>))
                == spec_step(cfg0, st0, *options_chain, wit));
        }
        None
    }
}

} // verus!
