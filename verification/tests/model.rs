use condor_backtest::iron_condor_position::IronCondorPosition;
use condor_backtest::options_data::{OptionType, OptionsContract, OptionsContractParams};

const DAY: i64 = 86400;
const BASE: i64 = 1_700_000_000;

fn contract(option_type: OptionType, strike_cents: i64, expiration: i64) -> OptionsContract {
    OptionsContract::new(OptionsContractParams {
        underlying: "SPY".to_string(),
        option_type,
        strike: strike_cents,
        expiration,
        underlying_price: 40000,
        implied_vol: 2000,
        risk_free_rate: 500,
        current_time: BASE,
    })
}

#[test]
fn test_iron_condor_creation() {
    let expiration = BASE + DAY;

    let short_call = contract(OptionType::Call, 41000, expiration);
    let long_call = contract(OptionType::Call, 41500, expiration);
    let short_put = contract(OptionType::Put, 39000, expiration);
    let long_put = contract(OptionType::Put, 38500, expiration);

    let position = IronCondorPosition::new(
        "SPY".to_string(),
        short_call,
        long_call,
        short_put,
        long_put,
        1,
        BASE,
    );

    assert!(position.is_open());
    assert_eq!(position.call_spread_width(), 500);
    assert_eq!(position.put_spread_width(), 500);
    assert!(position.max_profit() > 0);
    assert!(position.max_loss() > 0);
}

#[test]
fn synthetic_quote_exact_values() {
    // Twenty dollars out of the money: time value one dollar, a three
    // percent spread around it.
    let c = contract(OptionType::Call, 42000, BASE + 30 * DAY);
    assert_eq!(c.last_price, 100);
    assert_eq!(c.bid, 99);
    assert_eq!(c.ask, 101);
    assert_eq!(c.dte, 30);
    // Thirty dollars out: the fifty-cent time-value floor.
    let far = contract(OptionType::Call, 43000, BASE + 30 * DAY);
    assert_eq!(far.last_price, 50);
    assert_eq!(far.bid, 50);
    assert_eq!(far.ask, 50);
    // In the money: intrinsic value plus time value.
    let itm = contract(OptionType::Call, 39000, BASE + 30 * DAY);
    assert_eq!(itm.last_price, 1000 + 200);
    // Expired contracts still quote the floor time value.
    let expired = contract(OptionType::Put, 40000, BASE - DAY);
    assert_eq!(expired.last_price, 50);
    assert_eq!(expired.dte, 0);
}

#[test]
fn position_pnl_between_short_strikes_is_full_premium() {
    let expiration = BASE + 30 * DAY;
    let position = IronCondorPosition::new(
        "SPY".to_string(),
        contract(OptionType::Call, 42000, expiration),
        contract(OptionType::Call, 43000, expiration),
        contract(OptionType::Put, 38000, expiration),
        contract(OptionType::Put, 37000, expiration),
        1,
        BASE,
    );
    // Premium: 99 + 99 - 50 - 50.
    assert_eq!(position.entry_premium, 98);
    // Underlying pinned between the short strikes: full premium kept.
    assert_eq!(position.calculate_pnl(40000), 98);
    // Beyond the long call: maximal call-side loss.
    assert_eq!(position.calculate_pnl(43500), 98 - 1000);
    // Between the short and long call: linear loss.
    assert_eq!(position.calculate_pnl(42500), 98 - 500);
    // Profit percentage at the pin: exactly one hundred percent.
    let pct = position.profit_percentage(40000);
    assert_eq!(pct.num, 9800);
    assert_eq!(pct.den, 98);
}
