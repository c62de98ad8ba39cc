use strata::decimal::Decimal;
use strata::trading212::{
    pie_path, pies_path, DividendDetails, FetchStep, InvestmentResult,
    PieDetailed, PieDetailsFetch, PieSettings, PieSummary, Trading212Client, Trading212Error,
};

fn zero() -> Decimal {
    Decimal { mantissa: 0, scale: 0 }
}

fn result() -> InvestmentResult {
    InvestmentResult {
        price_avg_invested_value: None,
        price_avg_result: None,
        price_avg_result_coef: None,
        price_avg_value: None,
        price_avg_value_coef: None,
    }
}

fn summary(id: u64) -> PieSummary {
    PieSummary {
        id,
        cash: zero(),
        dividend_details: DividendDetails { gained: zero(), in_cash: zero(), reinvested: zero() },
        progress: Some(0.5f64.to_bits()),
        result: result(),
        status: None,
    }
}

fn detail(name: &str) -> PieDetailed {
    PieDetailed {
        instruments: vec![],
        settings: PieSettings {
            name: name.to_string(),
            icon: None,
            goal: None,
            creation_date: Some(1_700_000_000),
            end_date: None,
            dividend_cash_action: None,
            instrument_shares: None,
            public_url: None,
        },
    }
}

#[test]
fn paths_name_the_endpoints() {
    assert_eq!(pies_path(), "equity/pies");
    assert_eq!(pie_path(0), "equity/pies/0");
    assert_eq!(pie_path(42), "equity/pies/42");
    assert_eq!(pie_path(1_000_007), "equity/pies/1000007");
    assert_eq!(pie_path(u64::MAX), format!("equity/pies/{}", u64::MAX));
}

#[test]
fn client_keeps_the_parsed_base_url_and_credentials() {
    let c = Trading212Client::new(
        "https://live.trading212.com/api/v0/",
        "key".to_string(),
        "secret".to_string(),
    )
    .unwrap();
    assert_eq!(c.base_url(), "https://live.trading212.com/api/v0/");
    assert_eq!(c.api_key(), "key");
    assert_eq!(c.api_secret(), "secret");
    let c = Trading212Client::new("HTTPS://Example.COM", String::new(), String::new()).unwrap();
    assert_eq!(c.base_url(), "https://example.com/");
}

#[test]
fn client_refuses_a_base_url_that_does_not_parse() {
    let r = Trading212Client::new("not a url", "k".to_string(), "s".to_string());
    assert!(matches!(r, Err(Trading212Error::InvalidBaseUrl(_))));
}

#[test]
fn request_urls_resolve_paths_against_the_base() {
    let c = Trading212Client::new(
        "https://live.trading212.com/api/v0/",
        "key".to_string(),
        "secret".to_string(),
    )
    .unwrap();
    assert_eq!(
        c.request_url(&pies_path()).unwrap(),
        "https://live.trading212.com/api/v0/equity/pies"
    );
    assert_eq!(
        c.request_url(&pie_path(42)).unwrap(),
        "https://live.trading212.com/api/v0/equity/pies/42"
    );
    assert_eq!(c.request_url("/root").unwrap(), "https://live.trading212.com/root");
}

#[test]
fn fetch_of_no_pies_is_done_at_once() {
    assert!(matches!(PieDetailsFetch::start(vec![]), FetchStep::Done(v) if v.is_empty()));
}

#[test]
fn fetch_pairs_each_pie_with_its_details_in_order() {
    let step = PieDetailsFetch::start(vec![summary(11), summary(22), summary(33)]);
    let mut names = vec!["first", "second", "third"].into_iter();
    let mut requested = vec![];
    let mut step = step;
    let all = loop {
        match step {
            FetchStep::FetchPie(fetch, id) => {
                requested.push(id);
                step = fetch.on_detail(detail(names.next().unwrap()));
            }
            FetchStep::Done(all) => break all,
        }
    };
    assert_eq!(requested, vec![11, 22, 33]);
    assert_eq!(all.len(), 3);
    assert_eq!(all[0].summary.id, 11);
    assert_eq!(all[0].detail.settings.name, "first");
    assert_eq!(all[1].summary.id, 22);
    assert_eq!(all[1].detail.settings.name, "second");
    assert_eq!(all[2].summary.id, 33);
    assert_eq!(all[2].detail.settings.name, "third");
    assert_eq!(all[0].summary.progress, Some(0.5f64.to_bits()));
}
