use std::str::FromStr;

use strata::decimal::Decimal;
use strata::portfolio::{
    build_portfolio_pie_summary, build_portfolio_summary, checked_portfolio_summary,
    decimal_to_percent, percentage_of, FullPieInfo,
    PORTFOLIO_SUMMARY_TOOL_DESCRIPTION, PORTFOLIO_SUMMARY_TOOL_NAME,
};
use strata::trading212::{
    DividendDetails, InvestmentResult, PieDetailed, PieInstrument, PieSettings, PieStatus,
    PieSummary,
};

fn d(mantissa: i128, scale: u32) -> Decimal {
    Decimal { mantissa, scale }
}

fn value_of(text: &str) -> rust_decimal::Decimal {
    rust_decimal::Decimal::from_str(text).unwrap()
}

fn as_rust(x: Decimal) -> rust_decimal::Decimal {
    rust_decimal::Decimal::from_i128_with_scale(x.mantissa, x.scale)
}

fn result_with_value(value: Option<Decimal>) -> InvestmentResult {
    InvestmentResult {
        price_avg_invested_value: None,
        price_avg_result: None,
        price_avg_result_coef: None,
        price_avg_value: value,
        price_avg_value_coef: None,
    }
}

fn instrument(ticker: &str, value: Option<Decimal>) -> PieInstrument {
    PieInstrument {
        ticker: ticker.to_string(),
        owned_quantity: d(1, 0),
        result: result_with_value(value),
        issues: vec![],
    }
}

fn pie(
    id: u64,
    name: &str,
    value: Option<Decimal>,
    instruments: Vec<PieInstrument>,
    shares: Option<Vec<(String, Decimal)>>,
) -> FullPieInfo {
    FullPieInfo {
        summary: PieSummary {
            id,
            cash: d(0, 0),
            dividend_details: DividendDetails {
                gained: d(0, 0),
                in_cash: d(0, 0),
                reinvested: d(0, 0),
            },
            progress: None,
            result: result_with_value(value),
            status: Some(PieStatus::OnTrack),
        },
        detail: PieDetailed {
            instruments,
            settings: PieSettings {
                name: name.to_string(),
                icon: None,
                goal: None,
                creation_date: None,
                end_date: None,
                dividend_cash_action: None,
                instrument_shares: shares,
                public_url: None,
            },
        },
    }
}

fn sample_portfolio() -> Vec<FullPieInfo> {
    vec![
        pie(
            1,
            "Growth",
            Some(d(60040, 2)),
            vec![
                instrument("AAPL_US_EQ", Some(d(40025, 2))),
                instrument("MSFT_US_EQ", Some(d(20015, 2))),
            ],
            Some(vec![
                ("AAPL_US_EQ".to_string(), d(6, 1)),
                ("MSFT_US_EQ".to_string(), d(4, 1)),
            ]),
        ),
        pie(
            2,
            "World",
            Some(d(39960, 2)),
            vec![instrument("VWRLl_EQ", Some(d(39960, 2)))],
            None,
        ),
    ]
}

#[test]
fn summary_reports_total_and_pie_weights() {
    let out = build_portfolio_summary(sample_portfolio());
    assert_eq!(out.source, "trading212");
    assert!(out.read_only);
    let total = out.total_current_value_rounded.unwrap();
    assert_eq!(total.scale, 0);
    assert_eq!(as_rust(total), value_of("1000"));
    assert_eq!(out.pies.len(), 2);
    assert_eq!(out.pies[0].name, "Growth");
    assert_eq!(out.pies[1].name, "World");
    assert_eq!(as_rust(out.pies[0].current_value_rounded.unwrap()), value_of("600"));
    assert_eq!(as_rust(out.pies[1].current_value_rounded.unwrap()), value_of("400"));
    assert_eq!(as_rust(out.pies[0].portfolio_weight_percent.unwrap()), value_of("60.04"));
    assert_eq!(as_rust(out.pies[1].portfolio_weight_percent.unwrap()), value_of("39.96"));
}

#[test]
fn summary_reports_instrument_weights_and_target_shares() {
    let out = build_portfolio_summary(sample_portfolio());
    let growth = &out.pies[0];
    assert_eq!(growth.instruments.len(), 2);
    let apple = &growth.instruments[0];
    assert_eq!(apple.ticker, "AAPL_US_EQ");
    assert_eq!(as_rust(apple.current_value_rounded.unwrap()), value_of("400"));
    assert_eq!(as_rust(apple.portfolio_weight_percent.unwrap()), value_of("40.02"));
    assert_eq!(as_rust(apple.pie_weight_percent.unwrap()), value_of("66.66"));
    assert_eq!(as_rust(apple.target_share_percent.unwrap()), value_of("60"));
    let microsoft = &growth.instruments[1];
    assert_eq!(microsoft.ticker, "MSFT_US_EQ");
    assert_eq!(as_rust(microsoft.pie_weight_percent.unwrap()), value_of("33.34"));
    assert_eq!(as_rust(microsoft.target_share_percent.unwrap()), value_of("40"));
    let world = &out.pies[1].instruments[0];
    assert_eq!(as_rust(world.pie_weight_percent.unwrap()), value_of("100"));
    assert_eq!(world.target_share_percent, None);
}

#[test]
fn percentages_have_at_most_two_decimal_places() {
    let out = build_portfolio_summary(sample_portfolio());
    for p in &out.pies {
        assert!(p.portfolio_weight_percent.unwrap().scale <= 2);
        assert_eq!(p.current_value_rounded.unwrap().scale, 0);
        for i in &p.instruments {
            assert!(i.portfolio_weight_percent.unwrap().scale <= 2);
            assert!(i.pie_weight_percent.unwrap().scale <= 2);
            assert_eq!(i.current_value_rounded.unwrap().scale, 0);
        }
    }
}

#[test]
fn zero_total_gives_no_portfolio_weights() {
    let pies = vec![
        pie(1, "Empty", Some(d(0, 2)), vec![instrument("A", Some(d(0, 2)))], None),
        pie(2, "Unknown", None, vec![instrument("B", None)], None),
    ];
    let out = build_portfolio_summary(pies);
    assert_eq!(out.total_current_value_rounded, None);
    assert_eq!(out.pies[0].portfolio_weight_percent, None);
    assert_eq!(out.pies[0].instruments[0].portfolio_weight_percent, None);
    assert_eq!(out.pies[0].instruments[0].pie_weight_percent, None);
    assert_eq!(as_rust(out.pies[0].current_value_rounded.unwrap()), value_of("0"));
    assert_eq!(out.pies[1].current_value_rounded, None);
    assert_eq!(out.pies[1].instruments[0].current_value_rounded, None);
}

#[test]
fn missing_pie_value_is_left_out_of_the_total() {
    let pies = vec![
        pie(1, "Known", Some(d(250, 0)), vec![], None),
        pie(2, "Unknown", None, vec![instrument("X", Some(d(50, 0)))], None),
    ];
    let out = build_portfolio_summary(pies);
    assert_eq!(as_rust(out.total_current_value_rounded.unwrap()), value_of("250"));
    assert_eq!(as_rust(out.pies[0].portfolio_weight_percent.unwrap()), value_of("100"));
    assert_eq!(out.pies[1].portfolio_weight_percent, None);
    let x = &out.pies[1].instruments[0];
    assert_eq!(as_rust(x.portfolio_weight_percent.unwrap()), value_of("20"));
    assert_eq!(x.pie_weight_percent, None);
}

#[test]
fn empty_portfolio_has_no_total() {
    let out = build_portfolio_summary(vec![]);
    assert_eq!(out.total_current_value_rounded, None);
    assert!(out.pies.is_empty());
}

#[test]
fn percentage_of_needs_both_values_and_a_non_zero_total() {
    assert_eq!(percentage_of(None, Some(d(1, 0))), None);
    assert_eq!(percentage_of(Some(d(1, 0)), None), None);
    assert_eq!(percentage_of(Some(d(1, 0)), Some(d(0, 3))), None);
    let third = percentage_of(Some(d(1, 0)), Some(d(3, 0))).unwrap();
    assert_eq!(as_rust(third), value_of("33.33"));
    let two_thirds = percentage_of(Some(d(2, 0)), Some(d(3, 0))).unwrap();
    assert_eq!(as_rust(two_thirds), value_of("66.67"));
}

#[test]
fn decimal_to_percent_scales_and_rounds() {
    assert_eq!(as_rust(decimal_to_percent(d(12345, 5))), value_of("12.34"));
    assert_eq!(as_rust(decimal_to_percent(d(12355, 5))), value_of("12.36"));
    assert_eq!(as_rust(decimal_to_percent(d(1, 0))), value_of("100"));
}

#[test]
fn pie_summary_alone_uses_the_given_total() {
    let p = pie(7, "Solo", Some(d(50, 0)), vec![instrument("Y", Some(d(25, 0)))], None);
    let out = build_portfolio_pie_summary(p, Some(d(200, 0)));
    assert_eq!(out.name, "Solo");
    assert_eq!(as_rust(out.portfolio_weight_percent.unwrap()), value_of("25"));
    assert_eq!(as_rust(out.instruments[0].portfolio_weight_percent.unwrap()), value_of("12.5"));
    assert_eq!(as_rust(out.instruments[0].pie_weight_percent.unwrap()), value_of("50"));
}

#[test]
fn checked_summary_matches_the_summary() {
    let checked = checked_portfolio_summary(sample_portfolio()).unwrap();
    let plain = build_portfolio_summary(sample_portfolio());
    assert_eq!(checked.total_current_value_rounded, plain.total_current_value_rounded);
    assert_eq!(checked.pies.len(), plain.pies.len());
    for (a, b) in checked.pies.iter().zip(plain.pies.iter()) {
        assert_eq!(a.portfolio_weight_percent, b.portfolio_weight_percent);
    }
}

#[test]
fn checked_summary_reports_overflow() {
    let max = strata::decimal::MAX_MANTISSA;
    let pies = vec![
        pie(1, "A", Some(d(max, 0)), vec![], None),
        pie(2, "B", Some(d(max, 0)), vec![], None),
    ];
    assert!(checked_portfolio_summary(pies).is_none());
}

#[test]
fn checked_summary_reports_percentage_overflow() {
    let max = strata::decimal::MAX_MANTISSA;
    let pies = vec![
        pie(1, "Tiny", Some(d(1, 28)), vec![instrument("Z", Some(d(max, 0)))], None),
    ];
    assert!(checked_portfolio_summary(pies).is_none());
}

#[test]
fn portfolio_tool_has_its_name_and_description() {
    assert_eq!(PORTFOLIO_SUMMARY_TOOL_NAME, "get_portfolio_summary");
    assert!(PORTFOLIO_SUMMARY_TOOL_DESCRIPTION.starts_with("Returns a read-only Trading 212"));
    assert!(PORTFOLIO_SUMMARY_TOOL_DESCRIPTION.ends_with("Does not compute ETF look-through exposure."));
}
