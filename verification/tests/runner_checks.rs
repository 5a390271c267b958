use condor_backtest::iron_condor::{IronCondorConfig, IronCondorSignalGenerator};
use condor_backtest::options_data::{OptionType, OptionsChain, OptionsContract, OptionsContractParams};
use condor_backtest::ratio::Ratio;
use condor_backtest::runner::{BacktestConfig, BacktestRunner, EnhancedMarketEvent, HistoricalMarketGenerator};
use condor_backtest::strike_table::StrikeTable;

const DAY: i64 = 86400;
const BASE: i64 = 1_700_000_000;

fn test_chain(timestamp: i64) -> OptionsChain {
    let mut calls = StrikeTable::new();
    let mut puts = StrikeTable::new();
    let expiration = BASE + 30 * DAY;
    for strike in (370..=430u32).step_by(5) {
        let call = OptionsContract::new(OptionsContractParams {
            underlying: "SPY".to_string(),
            option_type: OptionType::Call,
            strike: (strike as i64) * 100,
            expiration,
            underlying_price: 40000,
            implied_vol: 2000,
            risk_free_rate: 500,
            current_time: timestamp,
        });
        calls.insert(strike, call);
        let put = OptionsContract::new(OptionsContractParams {
            underlying: "SPY".to_string(),
            option_type: OptionType::Put,
            strike: (strike as i64) * 100,
            expiration,
            underlying_price: 40000,
            implied_vol: 2000,
            risk_free_rate: 500,
            current_time: timestamp,
        });
        puts.insert(strike, put);
    }
    OptionsChain {
        underlying: "SPY".to_string(),
        expiration,
        underlying_price: 40000,
        calls,
        puts,
        timestamp,
    }
}

fn event(timestamp: i64) -> EnhancedMarketEvent {
    EnhancedMarketEvent {
        symbol: "SPY".to_string(),
        underlying_price: 40000,
        volume: 1000,
        implied_volatility: 2000,
        options_chains: vec![test_chain(timestamp)],
        timestamp,
    }
}

fn backtest_config() -> BacktestConfig {
    BacktestConfig {
        initial_capital: 10_000_000,
        start_date: BASE - 365 * DAY,
        end_date: BASE,
        commission_per_contract: 65,
        slippage_pct: 500,
    }
}

#[test]
fn single_event_leaves_one_open_trade() {
    let generator = HistoricalMarketGenerator::new("SPY".to_string(), vec![event(BASE)]);
    let strategy = IronCondorSignalGenerator::new(IronCondorConfig::default());
    let mut runner = BacktestRunner::new(backtest_config(), generator, strategy);

    let metrics = runner.run();

    // Entry premium 98 cents, commission 65 cents on each of four legs.
    assert_eq!(runner.current_capital, 10_000_000 + 98 - 260);
    assert_eq!(runner.trades.len(), 1);
    let t = &runner.trades[0];
    assert_eq!(t.entry_price, 98);
    assert_eq!(t.exit_price, 0);
    assert_eq!(t.quantity, 1);
    assert_eq!(t.entry_time, BASE);
    assert_eq!(t.exit_time, BASE);
    assert_eq!(t.trade_type, "IronCondor");
    assert!(t.metadata.open);
    assert_eq!(t.metadata.short_call_strike, 42000);
    assert_eq!(t.metadata.long_call_strike, 43000);
    assert_eq!(t.metadata.short_put_strike, 38000);
    assert_eq!(t.metadata.long_put_strike, 37000);
    assert_eq!(t.metadata.underlying_price, 40000);
    assert_eq!(t.metadata.max_profit, 98);
    assert_eq!(t.metadata.max_loss, 1000 - 98);

    // Equity was marked to market before the entry was applied.
    assert_eq!(runner.equity_curve.len(), 1);
    assert_eq!(runner.equity_curve.entry_at(0), (BASE, 10_000_000));

    // The still-open trade enters the metrics: its notional exit at
    // zero counts as a loss of the whole premium.
    assert_eq!(metrics.initial_capital, 10_000_000);
    assert_eq!(metrics.final_capital, 10_000_000 + 98 - 260);
    assert_eq!(metrics.total_trades, 1);
    assert_eq!(metrics.winning_trades, 0);
    assert_eq!(metrics.losing_trades, 1);
    assert_eq!(metrics.max_drawdown_pct, Ratio { num: 980_000, den: 10_000_000 });
}

#[test]
fn enter_then_exit_runs_to_a_closed_ledger() {
    let events = vec![event(BASE), event(BASE + 7200)];
    let generator = HistoricalMarketGenerator::new("SPY".to_string(), events);
    let strategy = IronCondorSignalGenerator::new(IronCondorConfig::default());
    let mut runner = BacktestRunner::new(backtest_config(), generator, strategy);

    let metrics = runner.run();

    // Enter: +98 - 260.  Exit at 102: 98 - 102 = -4, minus 260 again.
    assert_eq!(runner.current_capital, 10_000_000 + 98 - 260 - 4 - 260);
    assert_eq!(runner.trades.len(), 1);
    let t = &runner.trades[0];
    assert_eq!(t.entry_price, 98);
    assert_eq!(t.exit_price, 102);
    assert_eq!(t.entry_time, BASE);
    assert_eq!(t.exit_time, BASE + 7200);
    assert!(!t.metadata.open);

    assert_eq!(runner.equity_curve.len(), 2);
    assert_eq!(runner.equity_curve.entry_at(0), (BASE, 10_000_000));
    assert_eq!(runner.equity_curve.entry_at(1), (BASE + 7200, 10_000_000 + 98 - 260));

    // Metrics profit convention: (exit - entry) * quantity * 100.
    assert_eq!(metrics.total_trades, 1);
    assert_eq!(metrics.winning_trades, 1);
    assert_eq!(metrics.losing_trades, 0);
    assert_eq!(metrics.win_rate_pct, Ratio { num: 100, den: 1 });
    assert_eq!(metrics.max_drawdown_pct, Ratio { num: 0, den: 1 });
}

#[test]
fn snapshot_without_chains_is_skipped() {
    let empty = EnhancedMarketEvent {
        symbol: "SPY".to_string(),
        underlying_price: 40000,
        volume: 0,
        implied_volatility: 0,
        options_chains: vec![],
        timestamp: BASE,
    };
    let generator = HistoricalMarketGenerator::new("SPY".to_string(), vec![empty]);
    let strategy = IronCondorSignalGenerator::new(IronCondorConfig::default());
    let mut runner = BacktestRunner::new(backtest_config(), generator, strategy);

    let metrics = runner.run();
    assert_eq!(metrics.total_trades, 0);
    assert_eq!(runner.current_capital, 10_000_000);
    assert_eq!(runner.equity_curve.len(), 1);
}

#[test]
fn generator_replays_events_in_order() {
    let mut generator =
        HistoricalMarketGenerator::new("SPY".to_string(), vec![event(BASE), event(BASE + DAY)]);
    let first = generator.next_event().expect("first event");
    assert_eq!(first.timestamp, BASE);
    let second = generator.next_event().expect("second event");
    assert_eq!(second.timestamp, BASE + DAY);
    assert!(generator.next_event().is_none());
    assert_eq!(generator.current_idx, 2);
}

#[test]
fn nearest_expiration_picks_the_earliest_chain() {
    let mut near = test_chain(BASE);
    near.expiration = BASE + 7 * DAY;
    let far = test_chain(BASE);
    let e = EnhancedMarketEvent {
        symbol: "SPY".to_string(),
        underlying_price: 40000,
        volume: 0,
        implied_volatility: 0,
        options_chains: vec![far, near],
        timestamp: BASE,
    };
    assert_eq!(e.get_nearest_expiration(), Some(BASE + 7 * DAY));
    let chain = e.get_options_chain(BASE + 7 * DAY).expect("chain");
    assert_eq!(chain.expiration, BASE + 7 * DAY);
    assert!(e.get_options_chain(BASE + 9 * DAY).is_none());
}

#[test]
fn equity_journal_keeps_same_timestamp_recordings_in_order() {
    // Two snapshots with one timestamp: as a mapping the later equity
    // wins; the journal keeps both recordings in arrival order.
    let events = vec![event(BASE), event(BASE)];
    let generator = HistoricalMarketGenerator::new("SPY".to_string(), events);
    let strategy = IronCondorSignalGenerator::new(IronCondorConfig::default());
    let mut runner = BacktestRunner::new(backtest_config(), generator, strategy);
    runner.run();
    assert_eq!(runner.equity_curve.len(), 2);
    assert_eq!(runner.equity_curve.entry_at(0), (BASE, 10_000_000));
    assert_eq!(runner.equity_curve.entry_at(1), (BASE, 10_000_000 + 98 - 260));
}
