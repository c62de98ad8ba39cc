//! The portfolio summary: pie and instrument values, portfolio weights,
//! pie weights and target shares, derived from the broker's pie data.
use crate::decimal::{
    decimal_add, decimal_checked_add, decimal_checked_div, decimal_checked_mul, decimal_div,
    decimal_mul, opt_view, spec_round_dp, Decimal,
};
use crate::trading212::{PieDetailed, PieInstrument, PieSummary};
use vstd::prelude::*;

verus! {

/// A pie summary paired with its detailed instrument information.
#[derive(Clone, Debug)]
pub struct FullPieInfo {
    /// Summary fields returned by the fetch-all-pies endpoint.
    pub summary: PieSummary,
    /// Detailed fields returned by the fetch-pie endpoint.
    pub detail: PieDetailed,
}

impl FullPieInfo {
    /// Every decimal of the pie is valid.
    pub open spec fn wf(&self) -> bool {
        self.summary.wf() && self.detail.wf()
    }
}

/// Input for the portfolio summary tool: it takes no arguments.
#[derive(Clone, Copy, Debug)]
pub struct GetPortfolioSummaryInput {}

/// Portfolio summary derived from the broker's pie data.
#[derive(Clone, Debug)]
pub struct GetPortfolioSummaryOutput {
    /// Source system used to fetch the underlying data.
    pub source: &'static str,
    /// True because the summary never modifies broker data.
    pub read_only: bool,
    /// Total current value used as the denominator for portfolio weights,
    /// rounded to whole account-currency units.
    pub total_current_value_rounded: Option<Decimal>,
    /// Pies with summarized instrument data.
    pub pies: Vec<PortfolioPieSummary>,
}

/// Pie-level portfolio summary.
#[derive(Clone, Debug)]
pub struct PortfolioPieSummary {
    /// Pie name as configured by the user.
    pub name: String,
    /// Current pie value rounded to whole account-currency units.
    pub current_value_rounded: Option<Decimal>,
    /// Pie weight as a percentage of the returned portfolio, rounded to two
    /// decimal places.
    pub portfolio_weight_percent: Option<Decimal>,
    /// Instruments held in the pie.
    pub instruments: Vec<PortfolioInstrumentSummary>,
}

/// Instrument-level portfolio summary.
#[derive(Clone, Debug)]
pub struct PortfolioInstrumentSummary {
    /// The broker's instrument ticker.
    pub ticker: String,
    /// Instrument current value rounded to whole account-currency units.
    pub current_value_rounded: Option<Decimal>,
    /// Instrument weight as a percentage of the returned portfolio, rounded
    /// to two decimal places.
    pub portfolio_weight_percent: Option<Decimal>,
    /// Instrument weight within its pie, rounded to two decimal places.
    pub pie_weight_percent: Option<Decimal>,
    /// Configured target share, if the broker returned one, rounded to two
    /// decimal places.
    pub target_share_percent: Option<Decimal>,
}

/// Name of the portfolio summary tool.
pub const PORTFOLIO_SUMMARY_TOOL_NAME: &'static str = "get_portfolio_summary";

/// Description of the portfolio summary tool, as the chat model reads it.
pub const PORTFOLIO_SUMMARY_TOOL_DESCRIPTION: &'static str = "Returns a read-only Trading 212 portfolio summary with pie names, instrument tickers, rounded current values, and deterministic portfolio/pie weights. Does not compute ETF look-through exposure.";

// ---------------------------------------------------------------------------
// The model
// ---------------------------------------------------------------------------

/// The decimal one hundred.
pub open spec fn hundred() -> (int, nat) {
    (100, 0)
}

/// An optional value rounded to `dp` fractional digits.
pub open spec fn spec_opt_round(o: Option<(int, nat)>, dp: nat) -> Option<(int, nat)> {
    match o {
        Some(d) => Some(spec_round_dp(d, dp)),
        None => None,
    }
}

/// Whether `value` can be turned into a percentage without overflow.
pub open spec fn percent_computable(value: (int, nat)) -> bool {
    decimal_checked_mul(value, hundred()) is Some
}

/// A fraction as a percentage rounded to two decimal places.
pub open spec fn spec_decimal_to_percent(value: (int, nat)) -> (int, nat) {
    spec_round_dp(decimal_checked_mul(value, hundred())->0, 2)
}

/// `value` as a percentage of `total`, rounded to two decimal places; none
/// when either is missing or the total is zero.
pub open spec fn spec_percentage_of(value: Option<(int, nat)>, total: Option<(int, nat)>) -> Option<
    (int, nat),
> {
    match (value, total) {
        (Some(v), Some(t)) => if t.0 == 0 {
            None
        } else {
            Some(spec_decimal_to_percent(decimal_checked_div(v, t)->0))
        },
        _ => None,
    }
}

/// Whether the percentage of `value` in `total` can be computed without
/// overflow.
pub open spec fn percentage_computable(value: Option<(int, nat)>, total: Option<(int, nat)>) -> bool {
    match (value, total) {
        (Some(v), Some(t)) => t.0 != 0 ==> (decimal_checked_div(v, t) matches Some(q)
            && percent_computable(q)),
        _ => true,
    }
}

/// The current value the broker reports for a pie.
pub open spec fn pie_value(pie: FullPieInfo) -> Option<(int, nat)> {
    opt_view(pie.summary.result.price_avg_value)
}

/// The current value the broker reports for an instrument.
pub open spec fn instrument_value(instrument: PieInstrument) -> Option<(int, nat)> {
    opt_view(instrument.result.price_avg_value)
}

/// The sum, from zero and in order, of the pie values that are present;
/// none when an addition overflows.
pub open spec fn spec_value_sum(pies: Seq<FullPieInfo>) -> Option<(int, nat)>
    decreases pies.len(),
{
    if pies.len() == 0 {
        Some((0, 0))
    } else {
        let before = spec_value_sum(pies.drop_last());
        match pie_value(pies.last()) {
            None => before,
            Some(v) => match before {
                Some(acc) => decimal_checked_add(acc, v),
                None => None,
            },
        }
    }
}

/// The total current value of the portfolio; none when it is zero.
pub open spec fn spec_total_current_value(pies: Seq<FullPieInfo>) -> Option<(int, nat)> {
    match spec_value_sum(pies) {
        Some(t) => if t.0 == 0 {
            None
        } else {
            Some(t)
        },
        None => None,
    }
}

/// The target share configured for `ticker`: that of the first entry
/// with this ticker.
pub open spec fn spec_lookup_share(shares: Seq<(String, Decimal)>, ticker: Seq<char>) -> Option<
    (int, nat),
>
    decreases shares.len(),
{
    if shares.len() == 0 {
        None
    } else if shares[0].0@ == ticker {
        Some(shares[0].1@)
    } else {
        spec_lookup_share(shares.drop_first(), ticker)
    }
}

/// The configured target share of `ticker`, where the broker returned the
/// shares and one is set for the ticker.
pub open spec fn spec_target_share(shares: Option<Vec<(String, Decimal)>>, ticker: Seq<char>) -> Option<
    (int, nat),
> {
    match shares {
        Some(s) => spec_lookup_share(s@, ticker),
        None => None,
    }
}

/// The configured target share of `ticker` as a percentage.
pub open spec fn spec_target_share_percent(
    shares: Option<Vec<(String, Decimal)>>,
    ticker: Seq<char>,
) -> Option<(int, nat)> {
    match spec_target_share(shares, ticker) {
        Some(s) => Some(spec_decimal_to_percent(s)),
        None => None,
    }
}

/// Whether every figure of an instrument's summary can be computed without
/// overflow.
pub open spec fn instrument_computable(
    instrument: PieInstrument,
    shares: Option<Vec<(String, Decimal)>>,
    total: Option<(int, nat)>,
    pie_total: Option<(int, nat)>,
) -> bool {
    &&& percentage_computable(instrument_value(instrument), total)
    &&& percentage_computable(instrument_value(instrument), pie_total)
    &&& (spec_target_share(shares, instrument.ticker@) matches Some(s) ==> percent_computable(s))
}

/// Whether every figure of a pie's summary can be computed without
/// overflow.
pub open spec fn pie_computable(pie: FullPieInfo, total: Option<(int, nat)>) -> bool {
    &&& percentage_computable(pie_value(pie), total)
    &&& forall|i: int|
        0 <= i < pie.detail.instruments@.len() ==> instrument_computable(
            #[trigger] pie.detail.instruments@[i],
            pie.detail.settings.instrument_shares,
            total,
            pie_value(pie),
        )
}

/// Whether the whole summary can be computed without overflow.
pub open spec fn summary_computable(pies: Seq<FullPieInfo>) -> bool {
    &&& spec_value_sum(pies) is Some
    &&& forall|i: int|
        0 <= i < pies.len() ==> pie_computable(#[trigger] pies[i], spec_total_current_value(pies))
}

/// `out` summarizes `instrument` of a pie with the given shares and value,
/// in a portfolio with the given total.
pub open spec fn instrument_summary_of(
    out: PortfolioInstrumentSummary,
    instrument: PieInstrument,
    shares: Option<Vec<(String, Decimal)>>,
    total: Option<(int, nat)>,
    pie_total: Option<(int, nat)>,
) -> bool {
    &&& out.ticker@ == instrument.ticker@
    &&& opt_view(out.current_value_rounded) == spec_opt_round(instrument_value(instrument), 0)
    &&& opt_view(out.portfolio_weight_percent) == spec_percentage_of(
        instrument_value(instrument),
        total,
    )
    &&& opt_view(out.pie_weight_percent) == spec_percentage_of(instrument_value(instrument), pie_total)
    &&& opt_view(out.target_share_percent) == spec_target_share_percent(shares, instrument.ticker@)
}

/// `out` summarizes `pie` in a portfolio with the given total.
pub open spec fn pie_summary_of(out: PortfolioPieSummary, pie: FullPieInfo, total: Option<(int, nat)>) -> bool {
    &&& out.name@ == pie.detail.settings.name@
    &&& opt_view(out.current_value_rounded) == spec_opt_round(pie_value(pie), 0)
    &&& opt_view(out.portfolio_weight_percent) == spec_percentage_of(pie_value(pie), total)
    &&& out.instruments@.len() == pie.detail.instruments@.len()
    &&& forall|i: int|
        0 <= i < out.instruments@.len() ==> instrument_summary_of(
            #[trigger] out.instruments@[i],
            pie.detail.instruments@[i],
            pie.detail.settings.instrument_shares,
            total,
            pie_value(pie),
        )
}

/// `out` summarizes the portfolio made of `pies`.
pub open spec fn portfolio_summary_of(out: GetPortfolioSummaryOutput, pies: Seq<FullPieInfo>) -> bool {
    &&& out.source@ == "trading212"@
    &&& out.read_only
    &&& opt_view(out.total_current_value_rounded) == spec_opt_round(spec_total_current_value(pies), 0)
    &&& out.pies@.len() == pies.len()
    &&& forall|i: int|
        0 <= i < pies.len() ==> pie_summary_of(
            #[trigger] out.pies@[i],
            pies[i],
            spec_total_current_value(pies),
        )
}

// ---------------------------------------------------------------------------
// The computation
// ---------------------------------------------------------------------------

/// A fraction as a percentage, rounded to two decimal places.
pub fn decimal_to_percent(value: Decimal) -> (r: Decimal)
    requires
        value.wf(),
        percent_computable(value@),
    ensures
        r@ == spec_decimal_to_percent(value@),
        r.wf(),
{
    let scaled = decimal_mul(value, Decimal::new(100, 0)).unwrap();
    scaled.round_dp(2)
}

/// `value` as a percentage of `total`, rounded to two decimal places.
pub fn percentage_of(value: Option<Decimal>, total: Option<Decimal>) -> (r: Option<Decimal>)
    requires
        value matches Some(v) ==> v.wf(),
        total matches Some(t) ==> t.wf(),
        percentage_computable(opt_view(value), opt_view(total)),
    ensures
        opt_view(r) == spec_percentage_of(opt_view(value), opt_view(total)),
        r matches Some(d) ==> d.wf(),
{
    let v = match value {
        Some(v) => v,
        None => return None,
    };
    let t = match total {
        Some(t) => t,
        None => return None,
    };
    if t.is_zero() {
        return None;
    }
    let quotient = decimal_div(v, t).unwrap();
    Some(decimal_to_percent(quotient))
}

/// An optional value rounded to `dp` fractional digits.
fn round_opt(value: Option<Decimal>, dp: u32) -> (r: Option<Decimal>)
    requires
        value matches Some(v) ==> v.wf(),
    ensures
        opt_view(r) == spec_opt_round(opt_view(value), dp as nat),
        r matches Some(d) ==> d.wf(),
{
    match value {
        Some(v) => Some(v.round_dp(dp)),
        None => None,
    }
}

/// The target share configured for `ticker`.
fn lookup_share(shares: &Vec<(String, Decimal)>, ticker: &String) -> (r: Option<Decimal>)
    ensures
        opt_view(r) == spec_lookup_share(shares@, ticker@),
        r matches Some(d) ==> exists|i: int| 0 <= i < shares@.len() && d == shares@[i].1,
{
    let mut i: usize = 0;
    assert(shares@.skip(0) =~= shares@);
    while i < shares.len()
        invariant
            i <= shares@.len(),
            spec_lookup_share(shares@, ticker@) == spec_lookup_share(shares@.skip(i as int), ticker@),
        decreases shares.len() - i,
    {
        assert(shares@.skip(i as int).drop_first() =~= shares@.skip(i + 1));
        if shares[i].0 == *ticker {
            return Some(shares[i].1);
        }
        i = i + 1;
    }
    None
}

/// The summary of one instrument of a pie.
fn build_portfolio_instrument_summary(
    instrument: &PieInstrument,
    shares: &Option<Vec<(String, Decimal)>>,
    total_current_value: Option<Decimal>,
    pie_current_value: Option<Decimal>,
) -> (out: PortfolioInstrumentSummary)
    requires
        instrument.wf(),
        shares matches Some(s) ==> forall|i: int| 0 <= i < s@.len() ==> (#[trigger] s@[i]).1.wf(),
        total_current_value matches Some(t) ==> t.wf(),
        pie_current_value matches Some(t) ==> t.wf(),
        instrument_computable(
            *instrument,
            *shares,
            opt_view(total_current_value),
            opt_view(pie_current_value),
        ),
    ensures
        instrument_summary_of(
            out,
            *instrument,
            *shares,
            opt_view(total_current_value),
            opt_view(pie_current_value),
        ),
{
    let current_value = instrument.result.price_avg_value;
    let target_share_percent = match shares {
        Some(s) => match lookup_share(s, &instrument.ticker) {
            Some(share) => Some(decimal_to_percent(share)),
            None => None,
        },
        None => None,
    };
    PortfolioInstrumentSummary {
        ticker: instrument.ticker.clone(),
        current_value_rounded: round_opt(current_value, 0),
        portfolio_weight_percent: percentage_of(current_value, total_current_value),
        pie_weight_percent: percentage_of(current_value, pie_current_value),
        target_share_percent,
    }
}

/// The summary of one pie, its weight taken in a portfolio with the given
/// total current value.
pub fn build_portfolio_pie_summary(pie: FullPieInfo, total_current_value: Option<Decimal>) -> (out:
    PortfolioPieSummary)
    requires
        pie.wf(),
        total_current_value matches Some(t) ==> t.wf(),
        pie_computable(pie, opt_view(total_current_value)),
    ensures
        pie_summary_of(out, pie, opt_view(total_current_value)),
{
    let pie_current_value = pie.summary.result.price_avg_value;
    let mut instruments: Vec<PortfolioInstrumentSummary> = Vec::new();
    let mut i: usize = 0;
    while i < pie.detail.instruments.len()
        invariant
            pie.wf(),
            total_current_value matches Some(t) ==> t.wf(),
            pie_computable(pie, opt_view(total_current_value)),
            pie_current_value == pie.summary.result.price_avg_value,
            i <= pie.detail.instruments@.len(),
            instruments@.len() == i,
            forall|j: int|
                0 <= j < i ==> instrument_summary_of(
                    #[trigger] instruments@[j],
                    pie.detail.instruments@[j],
                    pie.detail.settings.instrument_shares,
                    opt_view(total_current_value),
                    pie_value(pie),
                ),
        decreases pie.detail.instruments@.len() - i,
    {
        let summary = build_portfolio_instrument_summary(
            &pie.detail.instruments[i],
            &pie.detail.settings.instrument_shares,
            total_current_value,
            pie_current_value,
        );
        instruments.push(summary);
        i = i + 1;
    }
    PortfolioPieSummary {
        name: pie.detail.settings.name,
        current_value_rounded: round_opt(pie_current_value, 0),
        portfolio_weight_percent: percentage_of(pie_current_value, total_current_value),
        instruments,
    }
}

/// A sum of present pie values over a prefix is defined whenever the sum
/// over the whole sequence is.
proof fn lemma_value_sum_prefix(pies: Seq<FullPieInfo>, n: int)
    requires
        0 <= n <= pies.len(),
        spec_value_sum(pies) is Some,
    ensures
        spec_value_sum(pies.take(n)) is Some,
    decreases pies.len() - n,
{
    if n < pies.len() {
        lemma_value_sum_prefix(pies, n + 1);
        assert(pies.take(n + 1).drop_last() =~= pies.take(n));
    } else {
        assert(pies.take(n) =~= pies);
    }
}

/// The sum of the pie values that are present, and the total current value
/// of the portfolio: the sum, or none where it is zero.
fn total_current_value(full_info: &Vec<FullPieInfo>) -> (r: Option<Decimal>)
    requires
        forall|i: int| 0 <= i < full_info@.len() ==> (#[trigger] full_info@[i]).wf(),
        spec_value_sum(full_info@) is Some,
    ensures
        opt_view(r) == spec_total_current_value(full_info@),
        r matches Some(d) ==> d.wf(),
{
    let mut sum = Decimal::new(0, 0);
    let mut i: usize = 0;
    while i < full_info.len()
        invariant
            forall|k: int| 0 <= k < full_info@.len() ==> (#[trigger] full_info@[k]).wf(),
            spec_value_sum(full_info@) is Some,
            i <= full_info@.len(),
            spec_value_sum(full_info@.take(i as int)) == Some(sum@),
            sum.wf(),
        decreases full_info@.len() - i,
    {
        proof {
            lemma_value_sum_prefix(full_info@, i + 1);
            assert(full_info@.take(i + 1).drop_last() =~= full_info@.take(i as int));
            assert(full_info@[i as int].wf());
        }
        match full_info[i].summary.result.price_avg_value {
            Some(v) => {
                sum = decimal_add(sum, v).unwrap();
            },
            None => {},
        }
        i = i + 1;
    }
    assert(full_info@.take(i as int) =~= full_info@);
    if sum.is_zero() {
        None
    } else {
        Some(sum)
    }
}

/// The portfolio summary: every pie with its instruments, their rounded
/// current values, their weights in the portfolio and in their pie, and
/// the target shares configured for them.
pub fn build_portfolio_summary(full_info: Vec<FullPieInfo>) -> (out: GetPortfolioSummaryOutput)
    requires
        forall|i: int| 0 <= i < full_info@.len() ==> (#[trigger] full_info@[i]).wf(),
        summary_computable(full_info@),
    ensures
        portfolio_summary_of(out, full_info@),
{
    let total_current_value = total_current_value(&full_info);
    let ghost pies = full_info@;
    let mut summaries: Vec<PortfolioPieSummary> = Vec::new();
    for pie in iter: full_info.into_iter()
        invariant
            iter.seq() == pies,
            forall|k: int| 0 <= k < pies.len() ==> (#[trigger] pies[k]).wf(),
            summary_computable(pies),
            opt_view(total_current_value) == spec_total_current_value(pies),
            total_current_value matches Some(d) ==> d.wf(),
            summaries@.len() == iter.index(),
            forall|j: int|
                0 <= j < iter.index() ==> pie_summary_of(
                    #[trigger] summaries@[j],
                    pies[j],
                    spec_total_current_value(pies),
                ),
    {
        proof {
            assert(pies[iter.index() as int] == pie);
        }
        summaries.push(build_portfolio_pie_summary(pie, total_current_value));
    }
    proof {
        reveal_strlit("trading212");
    }
    GetPortfolioSummaryOutput {
        source: "trading212",
        read_only: true,
        total_current_value_rounded: round_opt(total_current_value, 0),
        pies: summaries,
    }
}

/// Whether `value` can be turned into a percentage without overflow.
fn check_percent(value: Decimal) -> (b: bool)
    requires
        value.wf(),
    ensures
        b == percent_computable(value@),
{
    decimal_mul(value, Decimal::new(100, 0)).is_some()
}

/// Whether the percentage of `value` in `total` can be computed without
/// overflow.
fn check_percentage(value: Option<Decimal>, total: Option<Decimal>) -> (b: bool)
    requires
        value matches Some(v) ==> v.wf(),
        total matches Some(t) ==> t.wf(),
    ensures
        b == percentage_computable(opt_view(value), opt_view(total)),
{
    match (value, total) {
        (Some(v), Some(t)) => {
            if t.is_zero() {
                true
            } else {
                match decimal_div(v, t) {
                    Some(q) => check_percent(q),
                    None => false,
                }
            }
        },
        _ => true,
    }
}

/// Whether every figure of a pie's summary can be computed without
/// overflow.
fn check_pie(pie: &FullPieInfo, total: Option<Decimal>) -> (b: bool)
    requires
        pie.wf(),
        total matches Some(t) ==> t.wf(),
    ensures
        b == pie_computable(*pie, opt_view(total)),
{
    let pie_current_value = pie.summary.result.price_avg_value;
    if !check_percentage(pie_current_value, total) {
        return false;
    }
    let shares = &pie.detail.settings.instrument_shares;
    let mut i: usize = 0;
    while i < pie.detail.instruments.len()
        invariant
            pie.wf(),
            total matches Some(t) ==> t.wf(),
            pie_current_value == pie.summary.result.price_avg_value,
            *shares == pie.detail.settings.instrument_shares,
            i <= pie.detail.instruments@.len(),
            forall|j: int|
                0 <= j < i ==> instrument_computable(
                    #[trigger] pie.detail.instruments@[j],
                    *shares,
                    opt_view(total),
                    pie_value(*pie),
                ),
        decreases pie.detail.instruments@.len() - i,
    {
        let instrument = &pie.detail.instruments[i];
        assert(instrument.wf());
        let value = instrument.result.price_avg_value;
        if !check_percentage(value, total) || !check_percentage(value, pie_current_value) {
            return false;
        }
        match shares {
            Some(s) => match lookup_share(s, &instrument.ticker) {
                Some(share) => {
                    if !check_percent(share) {
                        return false;
                    }
                },
                None => {},
            },
            None => {},
        }
        i = i + 1;
    }
    true
}

/// The sum, from zero and in order, of the pie values that are present;
/// none when an addition overflows.
fn checked_value_sum(full_info: &Vec<FullPieInfo>) -> (r: Option<Decimal>)
    requires
        forall|i: int| 0 <= i < full_info@.len() ==> (#[trigger] full_info@[i]).wf(),
    ensures
        opt_view(r) == spec_value_sum(full_info@),
{
    let mut sum = Decimal::new(0, 0);
    let mut i: usize = 0;
    while i < full_info.len()
        invariant
            forall|k: int| 0 <= k < full_info@.len() ==> (#[trigger] full_info@[k]).wf(),
            i <= full_info@.len(),
            spec_value_sum(full_info@.take(i as int)) == Some(sum@),
            sum.wf(),
        decreases full_info@.len() - i,
    {
        proof {
            assert(full_info@.take(i + 1).drop_last() =~= full_info@.take(i as int));
            assert(full_info@[i as int].wf());
        }
        match full_info[i].summary.result.price_avg_value {
            Some(v) => {
                match decimal_add(sum, v) {
                    Some(s) => {
                        sum = s;
                    },
                    None => {
                        proof {
                            lemma_value_sum_none_extends(full_info@, i + 1);
                        }
                        return None;
                    },
                }
            },
            None => {},
        }
        i = i + 1;
    }
    assert(full_info@.take(i as int) =~= full_info@);
    Some(sum)
}

/// Once a prefix sum overflows, the sum over the whole sequence does too.
proof fn lemma_value_sum_none_extends(pies: Seq<FullPieInfo>, n: int)
    requires
        0 <= n <= pies.len(),
        spec_value_sum(pies.take(n)) is None,
    ensures
        spec_value_sum(pies) is None,
{
    if spec_value_sum(pies) is Some {
        lemma_value_sum_prefix(pies, n);
    }
}

/// The portfolio summary, or none where the decimal arithmetic behind it
/// overflows.
pub fn checked_portfolio_summary(full_info: Vec<FullPieInfo>) -> (out: Option<GetPortfolioSummaryOutput>)
    requires
        forall|i: int| 0 <= i < full_info@.len() ==> (#[trigger] full_info@[i]).wf(),
    ensures
        out is Some <==> summary_computable(full_info@),
        out matches Some(o) ==> portfolio_summary_of(o, full_info@),
        full_info@.len() == 0 ==> (out matches Some(o) && o.pies@.len() == 0
            && o.total_current_value_rounded is None),
{
    let sum = checked_value_sum(&full_info);
    if sum.is_none() {
        return None;
    }
    let total = total_current_value(&full_info);
    let mut i: usize = 0;
    while i < full_info.len()
        invariant
            forall|k: int| 0 <= k < full_info@.len() ==> (#[trigger] full_info@[k]).wf(),
            spec_value_sum(full_info@) is Some,
            opt_view(total) == spec_total_current_value(full_info@),
            total matches Some(d) ==> d.wf(),
            i <= full_info@.len(),
            forall|j: int|
                0 <= j < i ==> pie_computable(
                    #[trigger] full_info@[j],
                    spec_total_current_value(full_info@),
                ),
        decreases full_info@.len() - i,
    {
        assert(full_info@[i as int].wf());
        if !check_pie(&full_info[i], total) {
            return None;
        }
        i = i + 1;
    }
    Some(build_portfolio_summary(full_info))
}

// ---------------------------------------------------------------------------
// Laws
// ---------------------------------------------------------------------------

/// A rounded value has at most the requested number of fractional digits.
pub proof fn lemma_round_dp_scale(d: (int, nat), dp: nat)
    ensures
        spec_round_dp(d, dp).1 <= dp,
{
}

/// The configured share of a ticker is the share of the entry with that
/// ticker: there is none exactly where no entry has the ticker, and where
/// entries have it, it is the share of the first of them, wherever that
/// entry stands (in a pie's settings the tickers are distinct, so that is
/// the one entry with the ticker).
pub proof fn lemma_lookup_share_finds_ticker(shares: Seq<(String, Decimal)>, ticker: Seq<char>)
    ensures
        spec_lookup_share(shares, ticker) is None <==> forall|i: int|
            0 <= i < shares.len() ==> (#[trigger] shares[i]).0@ != ticker,
        forall|i: int|
            0 <= i < shares.len() && (#[trigger] shares[i]).0@ == ticker && (forall|j: int|
                0 <= j < i ==> shares[j].0@ != ticker) ==> spec_lookup_share(shares, ticker)
                == Some(shares[i].1@),
    decreases shares.len(),
{
    if shares.len() > 0 {
        let rest = shares.drop_first();
        lemma_lookup_share_finds_ticker(rest, ticker);
        assert forall|i: int| 1 <= i < shares.len() implies #[trigger] shares[i] == rest[i - 1] by {}
        if shares[0].0@ != ticker {
            assert((forall|i: int| 0 <= i < shares.len() ==> (#[trigger] shares[i]).0@ != ticker)
                <==> (forall|i: int| 0 <= i < rest.len() ==> (#[trigger] rest[i]).0@ != ticker)) by {
                if forall|i: int| 0 <= i < rest.len() ==> (#[trigger] rest[i]).0@ != ticker {
                    assert forall|i: int| 0 <= i < shares.len() implies (#[trigger] shares[i]).0@
                        != ticker by {
                        if i > 0 {
                            assert(rest[i - 1].0@ != ticker);
                        }
                    }
                }
            }
            assert forall|i: int|
                0 <= i < shares.len() && (#[trigger] shares[i]).0@ == ticker && (forall|j: int|
                    0 <= j < i ==> shares[j].0@ != ticker) implies spec_lookup_share(shares, ticker)
                == Some(shares[i].1@) by {
                assert(i > 0);
                assert forall|j: int| 0 <= j < i - 1 implies rest[j].0@ != ticker by {
                    assert(shares[j + 1].0@ != ticker);
                }
                assert(rest[i - 1].0@ == ticker);
            }
        }
    }
}

/// Rounding twice to the same number of digits is rounding once.
pub proof fn lemma_round_dp_idempotent(d: (int, nat), dp: nat)
    ensures
        spec_round_dp(spec_round_dp(d, dp), dp) == spec_round_dp(d, dp),
{
}

/// A weight is given exactly where the value and a non-zero total are both
/// present, and then it has at most two decimal places.
pub proof fn lemma_weight_presence(value: Option<(int, nat)>, total: Option<(int, nat)>)
    ensures
        spec_percentage_of(value, total) is Some <==> (value is Some && (total matches Some(t)
            && t.0 != 0)),
        spec_percentage_of(value, total) matches Some(p) ==> p.1 <= 2,
{
}

/// Every figure of an instrument summary has the precision it documents:
/// whole units for the value, two decimal places for the percentages.
pub open spec fn instrument_precision(out: PortfolioInstrumentSummary) -> bool {
    &&& out.current_value_rounded matches Some(d) ==> d.scale == 0
    &&& out.portfolio_weight_percent matches Some(d) ==> d.scale <= 2
    &&& out.pie_weight_percent matches Some(d) ==> d.scale <= 2
    &&& out.target_share_percent matches Some(d) ==> d.scale <= 2
}

/// Every figure of a pie summary has the precision it documents.
pub open spec fn pie_precision(out: PortfolioPieSummary) -> bool {
    &&& out.current_value_rounded matches Some(d) ==> d.scale == 0
    &&& out.portfolio_weight_percent matches Some(d) ==> d.scale <= 2
    &&& forall|i: int|
        0 <= i < out.instruments@.len() ==> instrument_precision(#[trigger] out.instruments@[i])
}

/// Every figure of a portfolio summary has the precision it documents:
/// current values in whole account-currency units, weights and target
/// shares rounded to two decimal places.
pub proof fn lemma_summary_precision(out: GetPortfolioSummaryOutput, pies: Seq<FullPieInfo>)
    requires
        portfolio_summary_of(out, pies),
    ensures
        out.total_current_value_rounded matches Some(d) ==> d.scale == 0,
        forall|i: int| 0 <= i < out.pies@.len() ==> pie_precision(#[trigger] out.pies@[i]),
{
    assert forall|i: int| 0 <= i < out.pies@.len() implies pie_precision(#[trigger] out.pies@[i]) by {
        let p = out.pies@[i];
        assert(pie_summary_of(p, pies[i], spec_total_current_value(pies)));
        assert forall|j: int| 0 <= j < p.instruments@.len() implies instrument_precision(
            #[trigger] p.instruments@[j],
        ) by {
            assert(instrument_summary_of(
                p.instruments@[j],
                pies[i].detail.instruments@[j],
                pies[i].detail.settings.instrument_shares,
                spec_total_current_value(pies),
                pie_value(pies[i]),
            ));
        }
    }
}

/// Without a non-zero total, no pie and no instrument has a portfolio
/// weight.
pub proof fn lemma_no_total_no_portfolio_weights(out: GetPortfolioSummaryOutput, pies: Seq<FullPieInfo>)
    requires
        portfolio_summary_of(out, pies),
        spec_total_current_value(pies) is None,
    ensures
        out.total_current_value_rounded is None,
        forall|i: int|
            0 <= i < out.pies@.len() ==> (#[trigger] out.pies@[i]).portfolio_weight_percent is None,
        forall|i: int, j: int|
            0 <= i < out.pies@.len() && 0 <= j < out.pies@[i].instruments@.len() ==> (
            #[trigger] out.pies@[i].instruments@[j]).portfolio_weight_percent is None,
{
    assert forall|i: int, j: int|
        0 <= i < out.pies@.len() && 0 <= j < out.pies@[i].instruments@.len() implies (
        #[trigger] out.pies@[i].instruments@[j]).portfolio_weight_percent is None by {
        assert(pie_summary_of(out.pies@[i], pies[i], spec_total_current_value(pies)));
    }
}

/// The summary is deterministic: two summaries of the same pie data agree
/// on every name, ticker, value, weight and target share.
pub proof fn lemma_summary_deterministic(
    a: GetPortfolioSummaryOutput,
    b: GetPortfolioSummaryOutput,
    pies: Seq<FullPieInfo>,
)
    requires
        portfolio_summary_of(a, pies),
        portfolio_summary_of(b, pies),
    ensures
        opt_view(a.total_current_value_rounded) == opt_view(b.total_current_value_rounded),
        a.pies@.len() == b.pies@.len(),
        forall|i: int|
            0 <= i < a.pies@.len() ==> {
                &&& (#[trigger] a.pies@[i]).name@ == b.pies@[i].name@
                &&& opt_view(a.pies@[i].current_value_rounded) == opt_view(
                    b.pies@[i].current_value_rounded,
                )
                &&& opt_view(a.pies@[i].portfolio_weight_percent) == opt_view(
                    b.pies@[i].portfolio_weight_percent,
                )
                &&& a.pies@[i].instruments@.len() == b.pies@[i].instruments@.len()
            },
        forall|i: int, j: int|
            0 <= i < a.pies@.len() && 0 <= j < a.pies@[i].instruments@.len() ==> {
                let x = #[trigger] a.pies@[i].instruments@[j];
                let y = b.pies@[i].instruments@[j];
                &&& x.ticker@ == y.ticker@
                &&& opt_view(x.current_value_rounded) == opt_view(y.current_value_rounded)
                &&& opt_view(x.portfolio_weight_percent) == opt_view(y.portfolio_weight_percent)
                &&& opt_view(x.pie_weight_percent) == opt_view(y.pie_weight_percent)
                &&& opt_view(x.target_share_percent) == opt_view(y.target_share_percent)
            },
{
    let total = spec_total_current_value(pies);
    assert forall|i: int| 0 <= i < a.pies@.len() implies {
        &&& (#[trigger] a.pies@[i]).name@ == b.pies@[i].name@
        &&& opt_view(a.pies@[i].current_value_rounded) == opt_view(b.pies@[i].current_value_rounded)
        &&& opt_view(a.pies@[i].portfolio_weight_percent) == opt_view(
            b.pies@[i].portfolio_weight_percent,
        )
        &&& a.pies@[i].instruments@.len() == b.pies@[i].instruments@.len()
    } by {
        assert(pie_summary_of(a.pies@[i], pies[i], total));
        assert(pie_summary_of(b.pies@[i], pies[i], total));
    }
    assert forall|i: int, j: int|
        0 <= i < a.pies@.len() && 0 <= j < a.pies@[i].instruments@.len() implies {
        let x = #[trigger] a.pies@[i].instruments@[j];
        let y = b.pies@[i].instruments@[j];
        &&& x.ticker@ == y.ticker@
        &&& opt_view(x.current_value_rounded) == opt_view(y.current_value_rounded)
        &&& opt_view(x.portfolio_weight_percent) == opt_view(y.portfolio_weight_percent)
        &&& opt_view(x.pie_weight_percent) == opt_view(y.pie_weight_percent)
        &&& opt_view(x.target_share_percent) == opt_view(y.target_share_percent)
    } by {
        assert(pie_summary_of(a.pies@[i], pies[i], total));
        assert(pie_summary_of(b.pies@[i], pies[i], total));
        let inst = pies[i].detail.instruments@[j];
        let shares = pies[i].detail.settings.instrument_shares;
        assert(instrument_summary_of(a.pies@[i].instruments@[j], inst, shares, total, pie_value(pies[i])));
        assert(instrument_summary_of(b.pies@[i].instruments@[j], inst, shares, total, pie_value(pies[i])));
    }
}

/// A percentage fails only where the decimal arithmetic overflows: a
/// missing value or a missing total is no failure, nor is a zero total;
/// with a value and a non-zero total, it fails exactly where dividing the
/// value by the total, or multiplying that quotient by one hundred, gives
/// no result.
pub proof fn lemma_percentage_fails_only_on_overflow(v: (int, nat), t: (int, nat))
    ensures
        percentage_computable(None, Some(t)),
        percentage_computable(Some(v), None),
        percentage_computable(None, None),
        percentage_computable(Some(v), Some(t)) <==> (t.0 == 0 || (decimal_checked_div(v, t) matches Some(
            q,
        ) && decimal_checked_mul(q, (100, 0)) is Some)),
{
}

/// The summary fails only where the decimal arithmetic behind it
/// overflows: it can be computed exactly where the pie values add up, and
/// every weight and target share that it gives can be computed; a missing
/// value, a zero value, a pie without instruments or a total of zero is
/// never a reason to fail.
pub proof fn lemma_summary_fails_only_on_overflow(pies: Seq<FullPieInfo>)
    ensures
        summary_computable(pies) <==> {
            &&& spec_value_sum(pies) is Some
            &&& forall|i: int|
                0 <= i < pies.len() ==> {
                    &&& percentage_computable(
                        pie_value(#[trigger] pies[i]),
                        spec_total_current_value(pies),
                    )
                    &&& forall|j: int|
                        0 <= j < pies[i].detail.instruments@.len() ==> {
                            &&& percentage_computable(
                                instrument_value(#[trigger] pies[i].detail.instruments@[j]),
                                spec_total_current_value(pies),
                            )
                            &&& percentage_computable(
                                instrument_value(pies[i].detail.instruments@[j]),
                                pie_value(pies[i]),
                            )
                            &&& (spec_target_share(
                                pies[i].detail.settings.instrument_shares,
                                pies[i].detail.instruments@[j].ticker@,
                            ) matches Some(s) ==> decimal_checked_mul(s, (100, 0)) is Some)
                        }
                }
        },
{
    let total = spec_total_current_value(pies);
    if summary_computable(pies) {
        assert forall|i: int| 0 <= i < pies.len() implies {
            &&& percentage_computable(pie_value(#[trigger] pies[i]), total)
            &&& forall|j: int|
                0 <= j < pies[i].detail.instruments@.len() ==> {
                    &&& percentage_computable(
                        instrument_value(#[trigger] pies[i].detail.instruments@[j]),
                        total,
                    )
                    &&& percentage_computable(
                        instrument_value(pies[i].detail.instruments@[j]),
                        pie_value(pies[i]),
                    )
                    &&& (spec_target_share(
                        pies[i].detail.settings.instrument_shares,
                        pies[i].detail.instruments@[j].ticker@,
                    ) matches Some(s) ==> decimal_checked_mul(s, (100, 0)) is Some)
                }
        } by {
            assert(pie_computable(pies[i], total));
            assert forall|j: int| 0 <= j < pies[i].detail.instruments@.len() implies {
                &&& percentage_computable(
                    instrument_value(#[trigger] pies[i].detail.instruments@[j]),
                    total,
                )
                &&& percentage_computable(
                    instrument_value(pies[i].detail.instruments@[j]),
                    pie_value(pies[i]),
                )
                &&& (spec_target_share(
                    pies[i].detail.settings.instrument_shares,
                    pies[i].detail.instruments@[j].ticker@,
                ) matches Some(s) ==> decimal_checked_mul(s, (100, 0)) is Some)
            } by {
                assert(instrument_computable(
                    pies[i].detail.instruments@[j],
                    pies[i].detail.settings.instrument_shares,
                    total,
                    pie_value(pies[i]),
                ));
            }
        }
    }
}

/// The total adds up the pie values in order, from zero: a pie without a
/// value adds nothing, a pie with one adds it to the sum so far, and an
/// overflow anywhere leaves no sum. The total is that sum, or none where
/// there is no sum or the sum is zero.
pub proof fn lemma_total_accumulates(pies: Seq<FullPieInfo>, pie: FullPieInfo)
    ensures
        spec_value_sum(Seq::<FullPieInfo>::empty()) == Some((0int, 0nat)),
        pie_value(pie) is None ==> spec_value_sum(pies.push(pie)) == spec_value_sum(pies),
        pie_value(pie) matches Some(v) ==> spec_value_sum(pies.push(pie)) == match spec_value_sum(
            pies,
        ) {
            Some(acc) => decimal_checked_add(acc, v),
            None => None,
        },
        spec_total_current_value(pies) is None <==> (spec_value_sum(pies) is None
            || (spec_value_sum(pies) matches Some(t) && t.0 == 0)),
        spec_total_current_value(pies) is Some ==> spec_total_current_value(pies) == spec_value_sum(
            pies,
        ),
{
    assert(pies.push(pie).drop_last() =~= pies);
}

/// A zero divisor is never an overflow: a value taken as a percentage of a
/// zero total can always be computed, and gives no percentage.
pub proof fn lemma_zero_divisor_is_no_overflow(value: Option<(int, nat)>, total: (int, nat))
    requires
        total.0 == 0,
    ensures
        percentage_computable(value, Some(total)),
        spec_percentage_of(value, Some(total)) is None,
{
}

/// A portfolio without pies can always be summarized: it has no total and
/// no pies.
pub proof fn lemma_empty_portfolio_summarizable()
    ensures
        summary_computable(Seq::<FullPieInfo>::empty()),
        spec_total_current_value(Seq::<FullPieInfo>::empty()) is None,
{
}

/// A pie whose value is zero asks nothing of its instruments' pie weights,
/// which are all absent: it can be summarized exactly when its own
/// portfolio weight and its instruments' portfolio weights and target
/// shares can be computed.
pub proof fn lemma_zero_valued_pie(pie: FullPieInfo, total: Option<(int, nat)>)
    requires
        pie_value(pie) matches Some(v) && v.0 == 0,
    ensures
        pie_computable(pie, total) <==> {
            &&& percentage_computable(pie_value(pie), total)
            &&& forall|i: int|
                0 <= i < pie.detail.instruments@.len() ==> {
                    &&& percentage_computable(
                        instrument_value(#[trigger] pie.detail.instruments@[i]),
                        total,
                    )
                    &&& (spec_target_share(
                        pie.detail.settings.instrument_shares,
                        pie.detail.instruments@[i].ticker@,
                    ) matches Some(s) ==> percent_computable(s))
                }
        },
        forall|i: int|
            0 <= i < pie.detail.instruments@.len() ==> spec_percentage_of(
                instrument_value(#[trigger] pie.detail.instruments@[i]),
                pie_value(pie),
            ) is None,
{
}

/// A portfolio whose pies are unfunded (each reports no value or a zero
/// value, summing without overflow to zero) can always be summarized,
/// provided its target shares can be turned into percentages: no weight is
/// computed, so no division can overflow.
pub proof fn lemma_unfunded_portfolio_summarizable(pies: Seq<FullPieInfo>)
    requires
        spec_value_sum(pies) matches Some(t) && t.0 == 0,
        forall|i: int| 0 <= i < pies.len() ==> (pie_value(#[trigger] pies[i]) matches Some(v)
            ==> v.0 == 0),
        forall|i: int, j: int|
            0 <= i < pies.len() && 0 <= j < pies[i].detail.instruments@.len() ==> (
            spec_target_share(
                pies[i].detail.settings.instrument_shares,
                (#[trigger] pies[i].detail.instruments@[j]).ticker@,
            ) matches Some(s) ==> percent_computable(s)),
    ensures
        summary_computable(pies),
        spec_total_current_value(pies) is None,
{
    assert forall|i: int| 0 <= i < pies.len() implies pie_computable(
        #[trigger] pies[i],
        spec_total_current_value(pies),
    ) by {
        let pie = pies[i];
        assert forall|j: int| 0 <= j < pie.detail.instruments@.len() implies instrument_computable(
            #[trigger] pie.detail.instruments@[j],
            pie.detail.settings.instrument_shares,
            spec_total_current_value(pies),
            pie_value(pie),
        ) by {
            assert(pies[i].detail.instruments@[j] == pie.detail.instruments@[j]);
        }
    }
}

} // verus!
