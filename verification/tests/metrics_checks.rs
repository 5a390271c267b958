use condor_backtest::metrics::{BacktestMetrics, ProfitFactor, Trade, TradeMetadata};
use condor_backtest::ratio::{ratio_le, ratio_lt, Ratio};

const DAY: i64 = 86400;

fn trade(entry_price: i64, exit_price: i64, quantity: u32, entry_time: i64, exit_time: i64) -> Trade {
    Trade {
        id: 1,
        symbol: "SPY".to_string(),
        entry_price,
        exit_price,
        quantity,
        entry_time,
        exit_time,
        trade_type: "IronCondor".to_string(),
        metadata: TradeMetadata {
            entry_premium: entry_price,
            max_profit: entry_price,
            max_loss: 0,
            short_call_strike: 0,
            long_call_strike: 0,
            short_put_strike: 0,
            long_put_strike: 0,
            underlying_price: 0,
            open: false,
        },
    }
}

#[test]
fn metrics_exact_values_two_trades() {
    let trades = vec![
        trade(100, 300, 1, 0, 2 * DAY),
        trade(500, 200, 1, 0, 0),
    ];
    let mut m = BacktestMetrics::new(1_000_000);
    m.calculate(990_000, &trades);

    assert_eq!(m.initial_capital, 1_000_000);
    assert_eq!(m.final_capital, 990_000);
    // (990000 - 1000000) * 100 over 1000000.
    assert_eq!(m.total_return_pct, Ratio { num: -1_000_000, den: 1_000_000 });
    assert_eq!(m.total_trades, 2);
    assert_eq!(m.winning_trades, 1);
    assert_eq!(m.losing_trades, 1);
    assert_eq!(m.win_rate_pct, Ratio { num: 100, den: 2 });
    assert_eq!(m.avg_profit_per_win, Ratio { num: 20_000, den: 1 });
    assert_eq!(m.avg_loss_per_loss, Ratio { num: 30_000, den: 1 });
    assert_eq!(m.profit_factor, ProfitFactor::Finite(Ratio { num: 20_000, den: 30_000 }));
    assert_eq!(m.avg_holding_days, Ratio { num: 2, den: 2 });
    // Peak 1020000 after the win, trough 990000 after the loss.
    assert_eq!(m.max_drawdown_pct, Ratio { num: 3_000_000, den: 1_020_000 });
    // Per-trade daily returns; the zero-day holding period leaves the
    // degenerate zero denominator for the reporting layer.
    assert_eq!(m.daily_returns.len(), 2);
    assert_eq!(m.daily_returns[0], Ratio { num: 20_000, den: 2_000_000 });
    assert_eq!(m.daily_returns[1], Ratio { num: -30_000, den: 0 });
}

#[test]
fn total_trades_split_into_wins_and_losses() {
    let trades = vec![
        trade(100, 300, 1, 0, DAY),
        trade(500, 200, 1, 0, DAY),
        trade(100, 100, 1, 0, DAY),
        trade(50, 90, 2, 0, 3 * DAY),
    ];
    let mut m = BacktestMetrics::new(1_000_000);
    m.calculate(1_000_000, &trades);
    assert_eq!(m.total_trades, m.winning_trades + m.losing_trades);
    // A zero-profit trade counts as a loss.
    assert_eq!(m.winning_trades, 2);
    assert_eq!(m.losing_trades, 2);
}

#[test]
fn profit_factor_infinite_iff_gains_without_losses() {
    let mut m = BacktestMetrics::new(1_000_000);
    m.calculate(1_040_000, &vec![trade(100, 300, 1, 0, DAY), trade(10, 20, 1, 0, DAY)]);
    assert_eq!(m.profit_factor, ProfitFactor::Infinite);
}

#[test]
fn profit_factor_zero_iff_no_gains_and_no_losses() {
    let mut m = BacktestMetrics::new(1_000_000);
    m.calculate(1_000_000, &vec![]);
    assert_eq!(m.profit_factor, ProfitFactor::Zero);

    // Trades at break-even: losing trades, but zero gross loss.
    let mut m2 = BacktestMetrics::new(1_000_000);
    m2.calculate(1_000_000, &vec![trade(100, 100, 1, 0, DAY)]);
    assert_eq!(m2.profit_factor, ProfitFactor::Zero);
    assert_eq!(m2.losing_trades, 1);
}

#[test]
fn drawdown_zero_iff_capital_nondecreasing() {
    let mut up = BacktestMetrics::new(1_000_000);
    up.calculate(1_030_000, &vec![
        trade(100, 200, 1, 0, DAY),
        trade(100, 100, 1, 0, DAY),
        trade(100, 300, 1, 0, DAY),
    ]);
    assert_eq!(up.max_drawdown_pct, Ratio { num: 0, den: 1 });

    let mut down = BacktestMetrics::new(1_000_000);
    down.calculate(990_000, &vec![trade(200, 100, 1, 0, DAY)]);
    assert!(down.max_drawdown_pct.num > 0);
    assert!(down.max_drawdown_pct.den > 0);
    assert_eq!(down.max_drawdown_pct, Ratio { num: 1_000_000, den: 1_000_000 });
}

#[test]
fn metrics_are_a_pure_function_of_inputs() {
    let trades = vec![
        trade(100, 300, 2, 0, 2 * DAY),
        trade(500, 200, 1, DAY, 4 * DAY),
    ];
    let mut a = BacktestMetrics::new(2_000_000);
    let mut b = BacktestMetrics::new(2_000_000);
    a.calculate(2_010_000, &trades);
    b.calculate(2_010_000, &trades);
    assert_eq!(a.total_return_pct, b.total_return_pct);
    assert_eq!(a.max_drawdown_pct, b.max_drawdown_pct);
    assert_eq!(a.total_trades, b.total_trades);
    assert_eq!(a.winning_trades, b.winning_trades);
    assert_eq!(a.losing_trades, b.losing_trades);
    assert_eq!(a.win_rate_pct, b.win_rate_pct);
    assert_eq!(a.avg_profit_per_win, b.avg_profit_per_win);
    assert_eq!(a.avg_loss_per_loss, b.avg_loss_per_loss);
    assert_eq!(a.profit_factor, b.profit_factor);
    assert_eq!(a.avg_holding_days, b.avg_holding_days);
    assert_eq!(a.daily_returns, b.daily_returns);
}

#[test]
fn ratio_comparison_is_exact_beyond_machine_words() {
    // 10^30 + 1 over 10^30 is strictly above one; a floating comparison
    // at this scale would see equality.
    let big = 1_000_000_000_000_000_000_000_000_000_000i128;
    let a = Ratio { num: big + 1, den: big };
    let one = Ratio { num: 1, den: 1 };
    assert!(!ratio_le(&a, &one));
    assert!(ratio_le(&one, &a));
    assert!(ratio_lt(&one, &a));
    // Equal fractions in different terms.
    let half = Ratio { num: 1, den: 2 };
    let half2 = Ratio { num: 2, den: 4 };
    assert!(ratio_le(&half, &half2));
    assert!(ratio_le(&half2, &half));
    assert!(!ratio_lt(&half, &half2));
}
