//! The pie data that the broker integration reports, as plain values.
use crate::decimal::Decimal;
use crate::portfolio::FullPieInfo;
use vstd::prelude::*;
use vstd::string::StringExecFns;

verus! {

/// Whether an optional decimal, where present, is a valid decimal.
pub open spec fn opt_wf(o: Option<Decimal>) -> bool {
    o matches Some(d) ==> d.wf()
}

/// Status of a pie relative to its configured goal.
#[derive(Clone, Copy, Debug, PartialEq, Eq, Structural)]
pub enum PieStatus {
    Ahead,
    OnTrack,
    Behind,
    Unknown,
}

/// Action the broker applies to dividend cash for the pie.
#[derive(Clone, Copy, Debug, PartialEq, Eq, Structural)]
pub enum DividendCashAction {
    Reinvest,
    ToAccountCash,
    Unknown,
}

/// Issue reported by the broker for an instrument in a pie.
#[derive(Clone, Copy, Debug, PartialEq, Eq, Structural)]
pub enum PieInstrumentIssue {
    Delisted,
    Suspended,
    NoLongerAvailable,
    MaxPositionSizeReached,
    Unknown,
}

/// Dividend totals for a pie.
#[derive(Clone, Debug)]
pub struct DividendDetails {
    pub gained: Decimal,
    pub in_cash: Decimal,
    pub reinvested: Decimal,
}

/// Investment result values reported by the broker.
#[derive(Clone, Debug)]
pub struct InvestmentResult {
    pub price_avg_invested_value: Option<Decimal>,
    pub price_avg_result: Option<Decimal>,
    pub price_avg_result_coef: Option<Decimal>,
    pub price_avg_value: Option<Decimal>,
    pub price_avg_value_coef: Option<Decimal>,
}

impl InvestmentResult {
    /// Every decimal present is valid.
    pub open spec fn wf(&self) -> bool {
        &&& opt_wf(self.price_avg_invested_value)
        &&& opt_wf(self.price_avg_result)
        &&& opt_wf(self.price_avg_result_coef)
        &&& opt_wf(self.price_avg_value)
        &&& opt_wf(self.price_avg_value_coef)
    }
}

/// Summary information for a pie, as the fetch-all-pies endpoint reports it.
#[derive(Clone, Debug)]
pub struct PieSummary {
    pub id: u64,
    pub cash: Decimal,
    pub dividend_details: DividendDetails,
    /// Progress towards the goal: the bit pattern of the reported
    /// double-precision number.
    pub progress: Option<u64>,
    pub result: InvestmentResult,
    pub status: Option<PieStatus>,
}

impl PieSummary {
    /// Every decimal in the summary is valid.
    pub open spec fn wf(&self) -> bool {
        &&& self.cash.wf()
        &&& self.dividend_details.gained.wf()
        &&& self.dividend_details.in_cash.wf()
        &&& self.dividend_details.reinvested.wf()
        &&& self.result.wf()
    }
}

/// Instrument included in a pie.
#[derive(Clone, Debug)]
pub struct PieInstrument {
    pub ticker: String,
    pub owned_quantity: Decimal,
    pub result: InvestmentResult,
    pub issues: Vec<PieInstrumentIssue>,
}

impl PieInstrument {
    /// Every decimal of the instrument is valid.
    pub open spec fn wf(&self) -> bool {
        &&& self.owned_quantity.wf()
        &&& self.result.wf()
    }
}

/// Settings for a pie.
#[derive(Clone, Debug)]
pub struct PieSettings {
    pub name: String,
    pub icon: Option<String>,
    pub goal: Option<Decimal>,
    /// Creation time, in seconds since the Unix epoch.
    pub creation_date: Option<i64>,
    /// End time, in seconds since the Unix epoch.
    pub end_date: Option<i64>,
    pub dividend_cash_action: Option<DividendCashAction>,
    /// Ticker and target share of each instrument, one entry per ticker.
    /// The broker may leave this out.
    pub instrument_shares: Option<Vec<(String, Decimal)>>,
    pub public_url: Option<String>,
}

impl PieSettings {
    /// Every decimal of the settings is valid, and no ticker has two target
    /// shares.
    pub open spec fn wf(&self) -> bool {
        &&& opt_wf(self.goal)
        &&& (self.instrument_shares matches Some(shares) ==> {
            &&& forall|i: int| 0 <= i < shares@.len() ==> (#[trigger] shares@[i]).1.wf()
            &&& forall|i: int, j: int|
                0 <= i < shares@.len() && 0 <= j < shares@.len() && i != j ==> (
                #[trigger] shares@[i]).0@ != (#[trigger] shares@[j]).0@
        })
    }
}

/// Detailed pie information, as the fetch-pie endpoint reports it.
#[derive(Clone, Debug)]
pub struct PieDetailed {
    pub instruments: Vec<PieInstrument>,
    pub settings: PieSettings,
}

impl PieDetailed {
    /// Every decimal of the pie details is valid.
    pub open spec fn wf(&self) -> bool {
        &&& forall|i: int| 0 <= i < self.instruments@.len() ==> (#[trigger] self.instruments@[i]).wf()
        &&& self.settings.wf()
    }
}

/// What the fetch-all-pies endpoint returns.
pub type FetchAllPiesResponse = Vec<PieSummary>;

/// The URL library's parse error.
#[verifier::external_type_specification]
#[verifier::external_body]
pub struct ExUrlParseError(url::ParseError);

/// The serialization of the absolute URL that the URL library parses from
/// `text`, or none where it parses none.
pub uninterp spec fn url_parsed(text: Seq<char>) -> Option<Seq<char>>;

/// Calls `url::Url::parse` and gives back the parsed URL's serialization,
/// named `url_parsed`; it fails exactly where that name gives none.
#[verifier::external_body]
fn parse_url(text: &str) -> (r: Result<String, url::ParseError>)
    ensures
        r is Ok <==> url_parsed(text@) is Some,
        r matches Ok(s) ==> url_parsed(text@) == Some(s@),
{
    url::Url::parse(text).map(String::from)
}

/// The serialization of `path` resolved against the absolute URL that the
/// URL library parses from `base`, or none where either step fails.
pub uninterp spec fn url_joined(base: Seq<char>, path: Seq<char>) -> Option<Seq<char>>;

/// Calls `url::Url::parse` on `base` and `url::Url::join` on the result
/// with `path`, and gives back the joined URL's serialization, named
/// `url_joined`; it fails exactly where that name gives none.
#[verifier::external_body]
fn join_url(base: &str, path: &str) -> (r: Result<String, url::ParseError>)
    ensures
        r is Ok <==> url_joined(base@, path@) is Some,
        r matches Ok(s) ==> url_joined(base@, path@) == Some(s@),
{
    url::Url::parse(base).and_then(|url| url.join(path)).map(String::from)
}

/// Why a request to the broker failed.
#[derive(Debug)]
pub enum Trading212Error {
    /// The API base URL does not parse.
    InvalidBaseUrl(url::ParseError),
    /// The HTTP request itself failed; the message says why.
    Request(String),
    /// The broker answered with a status that is not a success.
    Api { status: u16, body: String },
}

/// Where and as whom to reach the broker's API.
#[derive(Debug)]
pub struct Trading212Client {
    base_url: String,
    api_key: String,
    api_secret: String,
}

impl Trading212Client {
    /// The parsed base URL.
    pub closed spec fn base_url_spec(&self) -> Seq<char> {
        self.base_url@
    }

    /// The API key.
    pub closed spec fn api_key_spec(&self) -> Seq<char> {
        self.api_key@
    }

    /// The API secret.
    pub closed spec fn api_secret_spec(&self) -> Seq<char> {
        self.api_secret@
    }

    /// A client of the API at `base_url`; fails where the URL does not
    /// parse.
    pub fn new(base_url: &str, api_key: String, api_secret: String) -> (r: Result<
        Trading212Client,
        Trading212Error,
    >)
        ensures
            r is Ok <==> url_parsed(base_url@) is Some,
            r matches Ok(c) ==> {
                &&& url_parsed(base_url@) == Some(c.base_url_spec())
                &&& c.api_key_spec() == api_key@
                &&& c.api_secret_spec() == api_secret@
            },
            r matches Err(e) ==> e is InvalidBaseUrl,
    {
        match parse_url(base_url) {
            Ok(url) => Ok(Trading212Client { base_url: url, api_key, api_secret }),
            Err(e) => Err(Trading212Error::InvalidBaseUrl(e)),
        }
    }

    /// The URL of a request path, resolved against the base URL.
    pub fn request_url(&self, path: &str) -> (r: Result<String, url::ParseError>)
        ensures
            r is Ok <==> url_joined(self.base_url_spec(), path@) is Some,
            r matches Ok(s) ==> url_joined(self.base_url_spec(), path@) == Some(s@),
    {
        join_url(self.base_url.as_str(), path)
    }

    /// The parsed base URL.
    pub fn base_url(&self) -> (r: &String)
        ensures
            r@ == self.base_url_spec(),
    {
        &self.base_url
    }

    /// The API key.
    pub fn api_key(&self) -> (r: &String)
        ensures
            r@ == self.api_key_spec(),
    {
        &self.api_key
    }

    /// The API secret.
    pub fn api_secret(&self) -> (r: &String)
        ensures
            r@ == self.api_secret_spec(),
    {
        &self.api_secret
    }
}

/// The decimal digit `d`.
pub open spec fn digit_char(d: nat) -> char {
    ((48 + d) as u32) as char
}

/// The decimal numeral of `n`, without leading zeros.
pub open spec fn spec_decimal_numeral(n: nat) -> Seq<char>
    decreases n,
{
    if n < 10 {
        seq![digit_char(n)]
    } else {
        spec_decimal_numeral(n / 10) + seq![digit_char(n % 10)]
    }
}

/// The number that a string of decimal digits reads as.
pub open spec fn numeral_value(s: Seq<char>) -> int
    decreases s.len(),
{
    if s.len() == 0 {
        0
    } else {
        10 * numeral_value(s.drop_last()) + (s.last() as u32 - 48)
    }
}

/// The numeral of `n` is the decimal writing of `n`, whatever its size:
/// it holds decimal digits only, it reads back as `n`, and it starts with
/// a zero only where it is the numeral of zero.
pub proof fn lemma_decimal_numeral_reads_back(n: nat)
    ensures
        spec_decimal_numeral(n).len() > 0,
        forall|i: int|
            0 <= i < spec_decimal_numeral(n).len() ==> '0' <= #[trigger] spec_decimal_numeral(n)[i]
                <= '9',
        numeral_value(spec_decimal_numeral(n)) == n,
        spec_decimal_numeral(n)[0] == '0' ==> n == 0,
    decreases n,
{
    let s = spec_decimal_numeral(n);
    assert(digit_char(n % 10) as u32 == 48 + n % 10);
    if n < 10 {
        assert(s.drop_last() =~= Seq::<char>::empty());
        assert(numeral_value(s.drop_last()) == 0);
        assert(s.last() == digit_char(n));
        assert(numeral_value(s) == 10 * numeral_value(s.drop_last()) + (s.last() as u32 - 48));
    } else {
        lemma_decimal_numeral_reads_back(n / 10);
        let h = spec_decimal_numeral(n / 10);
        assert(s =~= h + seq![digit_char(n % 10)]);
        assert(s.drop_last() =~= h);
        assert(s.last() == digit_char(n % 10));
        assert(numeral_value(s) == 10 * numeral_value(h) + (s.last() as u32 - 48));
        assert(s[0] == h[0]);
        assert forall|i: int| 0 <= i < s.len() implies '0' <= #[trigger] s[i] <= '9' by {
            if i < h.len() {
                assert(s[i] == h[i]);
            }
        }
    }
}

/// The decimal digit `d`.
fn digit_str(d: u64) -> (r: &'static str)
    requires
        d < 10,
    ensures
        r@ == seq![digit_char(d as nat)],
{
    proof {
        reveal_strlit("0");
        reveal_strlit("1");
        reveal_strlit("2");
        reveal_strlit("3");
        reveal_strlit("4");
        reveal_strlit("5");
        reveal_strlit("6");
        reveal_strlit("7");
        reveal_strlit("8");
        reveal_strlit("9");
    }
    if d == 0 {
        "0"
    } else if d == 1 {
        "1"
    } else if d == 2 {
        "2"
    } else if d == 3 {
        "3"
    } else if d == 4 {
        "4"
    } else if d == 5 {
        "5"
    } else if d == 6 {
        "6"
    } else if d == 7 {
        "7"
    } else if d == 8 {
        "8"
    } else {
        "9"
    }
}

/// Appends the decimal numeral of `n`.
fn append_decimal(out: &mut String, n: u64)
    ensures
        final(out)@ == old(out)@ + spec_decimal_numeral(n as nat),
    decreases n,
{
    if n >= 10 {
        append_decimal(out, n / 10);
    }
    out.append(digit_str(n % 10));
    proof {
        if n >= 10 {
            assert(old(out)@ + spec_decimal_numeral(n as nat) =~= old(out)@ + spec_decimal_numeral(
                (n / 10) as nat,
            ) + seq![digit_char((n % 10) as nat)]);
        }
    }
}

/// Request path, relative to the API base, of the pie list.
pub fn pies_path() -> (p: String)
    ensures
        p@ == "equity/pies"@,
{
    <String as StringExecFns>::from_str("equity/pies")
}

/// Request path, relative to the API base, of one pie's details.
pub fn pie_path(pie_id: u64) -> (p: String)
    ensures
        p@ == "equity/pies/"@ + spec_decimal_numeral(pie_id as nat),
{
    let mut p = <String as StringExecFns>::from_str("equity/pies/");
    append_decimal(&mut p, pie_id);
    p
}

// ---------------------------------------------------------------------------
// Fetching the details of every pie
// ---------------------------------------------------------------------------

/// The fetch of every pie's details, one pie at a time and in the order of
/// the pie list: the decisions, with the requests left to the caller.
pub struct PieDetailsFetch {
    /// The pies still to fetch, last first.
    remaining: Vec<PieSummary>,
    collected: Vec<FullPieInfo>,
}

/// What the caller of the fetch is to do next.
pub enum FetchStep {
    /// Fetch the details of the pie with this id, and hand them to the
    /// fetch.
    FetchPie(PieDetailsFetch, u64),
    /// Every pie is paired with its details.
    Done(Vec<FullPieInfo>),
}

impl PieDetailsFetch {
    /// The pies still to fetch, in order.
    pub closed spec fn pending(&self) -> Seq<PieSummary> {
        self.remaining@.reverse()
    }

    /// The pies fetched so far, each with its details, in order.
    pub closed spec fn fetched(&self) -> Seq<FullPieInfo> {
        self.collected@
    }

    /// The step that continues a fetch in this state.
    fn step(self) -> (r: FetchStep)
        ensures
            self.pending().len() == 0 ==> (r matches FetchStep::Done(v) && v@ == self.fetched()),
            self.pending().len() > 0 ==> (r matches FetchStep::FetchPie(f, id) && f == self && id
                == self.pending()[0].id),
    {
        let n = self.remaining.len();
        if n == 0 {
            FetchStep::Done(self.collected)
        } else {
            let id = self.remaining[n - 1].id;
            proof {
                assert(self.pending()[0] == self.remaining@[n - 1]);
            }
            FetchStep::FetchPie(self, id)
        }
    }

    /// Starts fetching the details of the listed pies.
    pub fn start(pies: Vec<PieSummary>) -> (r: FetchStep)
        ensures
            pies@.len() == 0 ==> (r matches FetchStep::Done(v) && v@.len() == 0),
            pies@.len() > 0 ==> (r matches FetchStep::FetchPie(f, id) && f.pending() == pies@
                && f.fetched().len() == 0 && id == pies@[0].id),
    {
        let mut pies = pies;
        let ghost all = pies@;
        let mut remaining: Vec<PieSummary> = Vec::new();
        while pies.len() > 0
            invariant
                all == pies@ + remaining@.reverse(),
            decreases pies@.len(),
        {
            let ghost before = pies@;
            let pie = pies.pop().unwrap();
            proof {
                assert(before =~= pies@.push(pie));
            }
            remaining.push(pie);
            proof {
                assert(remaining@.reverse() =~= seq![pie] + remaining@.drop_last().reverse());
                assert(all =~= pies@ + remaining@.reverse());
            }
        }
        assert(all =~= remaining@.reverse());
        let f = PieDetailsFetch { remaining, collected: Vec::new() };
        f.step()
    }

    /// Takes in the details of the pie fetched last: pairs them with that
    /// pie, then asks for the next pie or ends.
    pub fn on_detail(self, detail: PieDetailed) -> (r: FetchStep)
        requires
            self.pending().len() > 0,
        ensures
            ({
                let fetched = self.fetched().push(
                    FullPieInfo { summary: self.pending()[0], detail },
                );
                let pending = self.pending().drop_first();
                &&& pending.len() == 0 ==> (r matches FetchStep::Done(v) && v@ == fetched)
                &&& pending.len() > 0 ==> (r matches FetchStep::FetchPie(f, id) && f.pending()
                    == pending && f.fetched() == fetched && id == pending[0].id)
            }),
    {
        let mut this = self;
        let ghost before = this.remaining@;
        let summary = this.remaining.pop().unwrap();
        proof {
            assert(before =~= this.remaining@.push(summary));
            assert(before.reverse() =~= seq![summary] + this.remaining@.reverse());
        }
        this.collected.push(FullPieInfo { summary, detail });
        this.step()
    }
}

} // verus!
