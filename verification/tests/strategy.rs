use condor_backtest::iron_condor::{IronCondorConfig, IronCondorSignal, IronCondorSignalGenerator};
use condor_backtest::options_data::{OptionType, OptionsChain, OptionsContract, OptionsContractParams};
use condor_backtest::strike_table::StrikeTable;

const DAY: i64 = 86400;
const BASE: i64 = 1_700_000_000;

fn create_test_options_chain() -> OptionsChain {
    let mut calls = StrikeTable::new();
    let mut puts = StrikeTable::new();
    let underlying_price: i64 = 40000;
    let expiration = BASE + 30 * DAY;
    let current_time = BASE;

    for strike in (370..=430u32).step_by(5) {
        let call = OptionsContract::new(OptionsContractParams {
            underlying: "SPY".to_string(),
            option_type: OptionType::Call,
            strike: (strike as i64) * 100,
            expiration,
            underlying_price,
            implied_vol: 2000,
            risk_free_rate: 500,
            current_time,
        });
        calls.insert(strike, call);

        let put = OptionsContract::new(OptionsContractParams {
            underlying: "SPY".to_string(),
            option_type: OptionType::Put,
            strike: (strike as i64) * 100,
            expiration,
            underlying_price,
            implied_vol: 2000,
            risk_free_rate: 500,
            current_time,
        });
        puts.insert(strike, put);
    }

    OptionsChain {
        underlying: "SPY".to_string(),
        expiration,
        underlying_price,
        calls,
        puts,
        timestamp: current_time,
    }
}

#[test]
fn test_iron_condor_signal_generation() {
    let config = IronCondorConfig {
        symbol: "SPY".to_string(),
        dte_threshold: 1,
        width_percentage: 500,
        delta_target: 1600,
        profit_target_pct: 5000,
        stop_loss_pct: 7500,
        exit_dte: 0,
        zero_dte: true,
    };

    let mut generator = IronCondorSignalGenerator::new(config);
    let options_chain = create_test_options_chain();

    let signal = generator.generate_signal_with_options_chain(&options_chain);

    assert!(signal.is_some());

    if let Some(IronCondorSignal::Enter { position, .. }) = signal {
        assert!(position.short_call.strike > options_chain.underlying_price);
        assert!(position.short_put.strike < options_chain.underlying_price);
        assert!(position.long_call.strike > position.short_call.strike);
        assert!(position.long_put.strike < position.short_put.strike);

        assert!(position.entry_premium > 0);

        let call_width = position.call_spread_width();
        let put_width = position.put_spread_width();
        assert!(call_width > 0 && call_width <= 2000);
        assert!(put_width > 0 && put_width <= 2000);
    } else {
        panic!("Expected entry signal");
    }
}

#[test]
fn test_iron_condor_no_duplicate_entries() {
    let config = IronCondorConfig {
        zero_dte: true,
        ..Default::default()
    };
    let mut generator = IronCondorSignalGenerator::new(config);
    let options_chain = create_test_options_chain();

    let signal1 = generator.generate_signal_with_options_chain(&options_chain);
    assert!(signal1.is_some());
    assert!(matches!(signal1, Some(IronCondorSignal::Enter { .. })));

    let signal2 = generator.generate_signal_with_options_chain(&options_chain);
    match signal2 {
        None => {}
        Some(IronCondorSignal::Exit { .. }) => {}
        Some(IronCondorSignal::Enter { .. }) => {
            panic!("Should not generate duplicate entry signal")
        }
    }
}

#[test]
fn test_iron_condor_exit_conditions() {
    let config = IronCondorConfig {
        symbol: "SPY".to_string(),
        profit_target_pct: 2500,
        stop_loss_pct: 5000,
        zero_dte: true,
        ..Default::default()
    };

    let mut generator = IronCondorSignalGenerator::new(config);
    let options_chain = create_test_options_chain();

    let entry_signal = generator.generate_signal_with_options_chain(&options_chain);
    assert!(entry_signal.is_some());
    assert!(matches!(entry_signal, Some(IronCondorSignal::Enter { .. })));

    let mut profitable_chain = options_chain.clone();
    profitable_chain.timestamp = BASE + 3600;
    profitable_chain.underlying_price = 40000;

    let exit_signal = generator.generate_signal_with_options_chain(&profitable_chain);

    assert!(exit_signal.is_some());
    assert!(matches!(exit_signal, Some(IronCondorSignal::Exit { .. })));

    if let Some(IronCondorSignal::Exit { reason, .. }) = exit_signal {
        assert!(reason == "profit target" || reason == "time exit");
    }
}

#[test]
fn test_find_closest_strike() {
    let config = IronCondorConfig::default();
    let generator = IronCondorSignalGenerator::new(config);
    let options_chain = create_test_options_chain();

    let closest_call = generator.find_closest_strike(&options_chain, 40300, OptionType::Call);
    assert_eq!(closest_call, Some(405));

    let closest_put = generator.find_closest_strike(&options_chain, 39700, OptionType::Put);
    assert_eq!(closest_put, Some(395));

    let exact_match = generator.find_closest_strike(&options_chain, 40000, OptionType::Call);
    assert_eq!(exact_match, Some(400));

    // Exact tie: the documented tie-break prefers the lower strike.
    let equidistant = generator.find_closest_strike(&options_chain, 40250, OptionType::Call);
    assert!(equidistant == Some(400) || equidistant == Some(405));
    assert_eq!(equidistant, Some(400));

    let equidistant_put = generator.find_closest_strike(&options_chain, 39750, OptionType::Put);
    assert!(equidistant_put == Some(395) || equidistant_put == Some(400));
    assert_eq!(equidistant_put, Some(395));

    let out_of_range = generator.find_closest_strike(&options_chain, 50000, OptionType::Call);
    assert_eq!(out_of_range, Some(430));

    let low_out_of_range = generator.find_closest_strike(&options_chain, 30000, OptionType::Put);
    assert_eq!(low_out_of_range, Some(370));

    let near_boundary_high = generator.find_closest_strike(&options_chain, 42800, OptionType::Call);
    assert_eq!(near_boundary_high, Some(430));

    let near_boundary_low = generator.find_closest_strike(&options_chain, 37200, OptionType::Put);
    assert_eq!(near_boundary_low, Some(370));
}

#[test]
fn test_iron_condor_time_based_entry_control() {
    let config = IronCondorConfig {
        zero_dte: true,
        ..Default::default()
    };
    let mut generator = IronCondorSignalGenerator::new(config);

    let base_time = BASE;
    let mut options_chain = create_test_options_chain();
    options_chain.timestamp = base_time;

    let signal1 = generator.generate_signal_with_options_chain(&options_chain);
    assert!(signal1.is_some());
    assert!(matches!(signal1, Some(IronCondorSignal::Enter { .. })));

    generator.state.active_positions.clear();

    let signal2 = generator.generate_signal_with_options_chain(&options_chain);
    assert!(signal2.is_none());

    options_chain.timestamp = base_time + 8 * DAY;
    let signal3 = generator.generate_signal_with_options_chain(&options_chain);
    assert!(signal3.is_some());
}

#[test]
fn entry_premium_and_strikes_are_exact() {
    // Underlying at four hundred dollars: targets 420 and 380, wings at
    // 430 and 370; premium 99 + 99 - 50 - 50 cents.
    let config = IronCondorConfig::default();
    let mut generator = IronCondorSignalGenerator::new(config);
    let options_chain = create_test_options_chain();

    match generator.generate_signal_with_options_chain(&options_chain) {
        Some(IronCondorSignal::Enter { position, timestamp }) => {
            assert_eq!(position.short_call.strike, 42000);
            assert_eq!(position.long_call.strike, 43000);
            assert_eq!(position.short_put.strike, 38000);
            assert_eq!(position.long_put.strike, 37000);
            assert_eq!(position.quantity, 1);
            assert_eq!(position.entry_premium, 98);
            assert_eq!(timestamp, BASE);
        }
        _ => panic!("expected an entry signal"),
    }
    assert_eq!(generator.state.active_positions.len(), 1);
    assert_eq!(generator.state.last_signal, Some(BASE));
}

#[test]
fn exit_premium_and_registry_are_exact() {
    let config = IronCondorConfig::default();
    let mut generator = IronCondorSignalGenerator::new(config);
    let options_chain = create_test_options_chain();

    let first = generator.generate_signal_with_options_chain(&options_chain);
    let entered_id = match first {
        Some(IronCondorSignal::Enter { position, .. }) => position.id,
        _ => panic!("expected an entry signal"),
    };

    let mut later = options_chain.clone();
    later.timestamp = BASE + 3600;
    match generator.generate_signal_with_options_chain(&later) {
        Some(IronCondorSignal::Exit { position_id, exit_premium, timestamp, reason }) => {
            assert_eq!(position_id, entered_id);
            // 101 + 101 - 50 - 50 cents to close the four legs.
            assert_eq!(exit_premium, 102);
            assert_eq!(timestamp, BASE + 3600);
            assert_eq!(reason, "profit target");
        }
        _ => panic!("expected an exit signal"),
    }
    assert_eq!(generator.state.active_positions.len(), 0);
}

fn flat_quote_contract(option_type: OptionType, strike_dollars: u32, bid: i64, ask: i64) -> OptionsContract {
    let mut c = OptionsContract::new(OptionsContractParams {
        underlying: "SPY".to_string(),
        option_type,
        strike: (strike_dollars as i64) * 100,
        expiration: BASE + 30 * DAY,
        underlying_price: 40000,
        implied_vol: 2000,
        risk_free_rate: 500,
        current_time: BASE,
    });
    c.bid = bid;
    c.ask = ask;
    c
}

#[test]
fn non_credit_entry_is_rejected() {
    // Every contract asks more than it bids back: the spread would open
    // at a net debit, so no entry signal is produced.
    let mut calls = StrikeTable::new();
    let mut puts = StrikeTable::new();
    for strike in (370..=430u32).step_by(5) {
        calls.insert(strike, flat_quote_contract(OptionType::Call, strike, 50, 100));
        puts.insert(strike, flat_quote_contract(OptionType::Put, strike, 50, 100));
    }
    let chain = OptionsChain {
        underlying: "SPY".to_string(),
        expiration: BASE + 30 * DAY,
        underlying_price: 40000,
        calls,
        puts,
        timestamp: BASE,
    };
    let mut generator = IronCondorSignalGenerator::new(IronCondorConfig::default());
    assert!(generator.generate_signal_with_options_chain(&chain).is_none());
    assert!(generator.state.active_positions.is_empty());
    // A rejected entry records no signal time either.
    assert_eq!(generator.state.last_signal, None);
}

#[test]
fn missing_put_side_abandons_the_entry() {
    let mut chain = create_test_options_chain();
    chain.puts = StrikeTable::new();
    let mut generator = IronCondorSignalGenerator::new(IronCondorConfig::default());
    assert!(generator.generate_signal_with_options_chain(&chain).is_none());
}

#[test]
fn stop_loss_reason_takes_precedence_over_time() {
    let mut generator = IronCondorSignalGenerator::new(IronCondorConfig::default());
    let options_chain = create_test_options_chain();
    assert!(matches!(
        generator.generate_signal_with_options_chain(&options_chain),
        Some(IronCondorSignal::Enter { .. })
    ));

    // The underlying moves deep into the call spread: the unrealized
    // loss exceeds the seventy-five percent stop.
    let mut losing = options_chain.clone();
    losing.timestamp = BASE + 2 * DAY;
    losing.underlying_price = 42500;
    match generator.generate_signal_with_options_chain(&losing) {
        Some(IronCondorSignal::Exit { reason, .. }) => assert_eq!(reason, "stop loss"),
        other => panic!("expected a stop-loss exit, got {:?}", other.is_some()),
    }
}

#[test]
fn dte_exit_reason_when_no_profit_trigger_fires() {
    let config = IronCondorConfig {
        profit_target_pct: 20000, // two hundred percent: unreachable
        exit_dte: 40,             // more days than the chain has left
        ..Default::default()
    };
    let mut generator = IronCondorSignalGenerator::new(config);
    let options_chain = create_test_options_chain();
    assert!(matches!(
        generator.generate_signal_with_options_chain(&options_chain),
        Some(IronCondorSignal::Enter { .. })
    ));

    let mut later = options_chain.clone();
    later.timestamp = BASE + 3600;
    match generator.generate_signal_with_options_chain(&later) {
        Some(IronCondorSignal::Exit { reason, .. }) => assert_eq!(reason, "DTE exit"),
        other => panic!("expected a DTE exit, got {:?}", other.is_some()),
    }
}

#[test]
fn time_exit_reason_after_a_day_without_other_triggers() {
    let config = IronCondorConfig {
        profit_target_pct: 20000,
        stop_loss_pct: 1000000,
        exit_dte: 0,
        ..Default::default()
    };
    let mut generator = IronCondorSignalGenerator::new(config);
    let options_chain = create_test_options_chain();
    assert!(matches!(
        generator.generate_signal_with_options_chain(&options_chain),
        Some(IronCondorSignal::Enter { .. })
    ));

    let mut later = options_chain.clone();
    later.timestamp = BASE + 2 * DAY;
    match generator.generate_signal_with_options_chain(&later) {
        Some(IronCondorSignal::Exit { reason, .. }) => assert_eq!(reason, "time exit"),
        other => panic!("expected a time exit, got {:?}", other.is_some()),
    }
}
