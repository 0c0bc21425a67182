//! Endpoint addressing of the FXMacroData REST client: which path each
//! request goes to, and the URL built from the base URL, that path and the
//! query parameters. URL parsing and query encoding are the `url` crate's
//! (through `reqwest::Url`); the HTTP exchange runs outside the library.
use vstd::prelude::*;
use vstd::string::*;

verus! {

/// The production base URL of the API.
pub const DEFAULT_BASE_URL: &'static str = "https://fxmacrodata.com/api/v1/";

/// The text of the error when the endpoint URL cannot be built.
pub const URL_BUILD_ERROR: &'static str = "failed to build FXMacroData endpoint URL";

/// The serialization of `Url::parse(base)` joined with `path`
/// (`Url::join`), or `None` when either step fails.
pub uninterp spec fn joined_url(base: Seq<char>, path: Seq<char>) -> Option<Seq<char>>;

/// The serialization of the URL serialized as `url` after
/// `query_pairs_mut().append_pair(key, value)`, or `None` when `url` does
/// not parse.
pub uninterp spec fn url_with_query_pair(url: Seq<char>, key: Seq<char>, value: Seq<char>) -> Option<
    Seq<char>,
>;

/// Calls `reqwest::Url::parse` on `base` and `Url::join` with `path`.
/// Trusted: the result depends on the two strings alone and is named
/// `joined_url`; a parse or join error gives `None`.
#[verifier::external_body]
fn join_url(base: &str, path: &str) -> (r: Option<String>)
    ensures
        match r {
            Some(u) => joined_url(base@, path@) == Some(u@),
            None => joined_url(base@, path@) is None,
        },
{
    match reqwest::Url::parse(base).and_then(|b| b.join(path)) {
        Ok(u) => Some(u.to_string()),
        Err(_) => None,
    }
}

/// Calls `reqwest::Url::parse` on `url`, then appends one query pair with
/// `query_pairs_mut().append_pair`. Trusted: the result depends on the
/// three strings alone and is named `url_with_query_pair`.
#[verifier::external_body]
fn append_query_pair(url: &str, key: &str, value: &str) -> (r: Option<String>)
    ensures
        match r {
            Some(u) => url_with_query_pair(url@, key@, value@) == Some(u@),
            None => url_with_query_pair(url@, key@, value@) is None,
        },
{
    match reqwest::Url::parse(url) {
        Ok(mut u) => {
            u.query_pairs_mut().append_pair(key, value);
            Some(u.to_string())
        },
        Err(_) => None,
    }
}

/// The named endpoints of the API, with their path parameters.
pub enum Endpoint<'a> {
    /// Data catalogue of a currency.
    DataCatalogue { currency: &'a str },
    /// Release announcements of an indicator.
    Announcements { currency: &'a str, indicator: &'a str },
    /// Latest announcements of a currency.
    LatestAnnouncements { currency: &'a str },
    /// Changes to announcements.
    AnnouncementChanges,
    /// Release calendar of a currency.
    Calendar { currency: &'a str },
    /// Predictions for an indicator.
    Predictions { currency: &'a str, indicator: &'a str },
    /// Exchange rates of a pair.
    Forex { base: &'a str, quote: &'a str },
    /// Commitments of traders of a currency.
    Cot { currency: &'a str },
    /// One commodity indicator.
    Commodity { indicator: &'a str },
    /// Latest commodity prices.
    CommoditiesLatest,
    /// Yield curves of a currency.
    Curves { currency: &'a str },
    /// Curve proxies of a currency.
    CurveProxies { currency: &'a str },
    /// Forward curves of a currency.
    ForwardCurves { currency: &'a str },
    /// Rate differentials of a pair.
    RateDifferentials { base: &'a str, quote: &'a str },
    /// Forward differentials of a pair.
    ForwardDifferentials { base: &'a str, quote: &'a str },
    /// Market sessions.
    MarketSessions,
    /// Risk sentiment.
    RiskSentiment,
    /// News of a currency.
    News { currency: &'a str },
    /// Press releases of a currency.
    PressReleases { currency: &'a str },
    /// The GraphQL endpoint (POST).
    GraphQl,
}

/// The path of each endpoint, relative to the base URL.
pub open spec fn endpoint_path_text(e: Endpoint) -> Seq<char> {
    match e {
        Endpoint::DataCatalogue { currency } => "data_catalogue/"@ + currency@,
        Endpoint::Announcements { currency, indicator } => "announcements/"@ + currency@ + "/"@ + indicator@,
        Endpoint::LatestAnnouncements { currency } => "announcements/"@ + currency@ + "/latest"@,
        Endpoint::AnnouncementChanges => "announcements/changes"@,
        Endpoint::Calendar { currency } => "calendar/"@ + currency@,
        Endpoint::Predictions { currency, indicator } => "predictions/"@ + currency@ + "/"@ + indicator@,
        Endpoint::Forex { base, quote } => "forex/"@ + base@ + "/"@ + quote@,
        Endpoint::Cot { currency } => "cot/"@ + currency@,
        Endpoint::Commodity { indicator } => "commodities/"@ + indicator@,
        Endpoint::CommoditiesLatest => "commodities/latest"@,
        Endpoint::Curves { currency } => "curves/"@ + currency@,
        Endpoint::CurveProxies { currency } => "curve_proxies/"@ + currency@,
        Endpoint::ForwardCurves { currency } => "forward_curves/"@ + currency@,
        Endpoint::RateDifferentials { base, quote } => "rate_differentials/"@ + base@ + "/"@ + quote@,
        Endpoint::ForwardDifferentials { base, quote } => "forward_differentials/"@ + base@ + "/"@ + quote@,
        Endpoint::MarketSessions => "market_sessions"@,
        Endpoint::RiskSentiment => "risk_sentiment"@,
        Endpoint::News { currency } => "news/"@ + currency@,
        Endpoint::PressReleases { currency } => "press-releases/"@ + currency@,
        Endpoint::GraphQl => "graphql"@,
    }
}

/// The path of an endpoint, relative to the base URL.
pub fn endpoint_path(e: &Endpoint) -> (p: String)
    ensures
        p@ == endpoint_path_text(*e),
{
    match e {
        Endpoint::DataCatalogue { currency } => {
            let mut p = String::from_str("data_catalogue/");
            p.append(currency);
            p
        },
        Endpoint::Announcements { currency, indicator } => {
            let mut p = String::from_str("announcements/");
            p.append(currency);
            p.append("/");
            p.append(indicator);
            p
        },
        Endpoint::LatestAnnouncements { currency } => {
            let mut p = String::from_str("announcements/");
            p.append(currency);
            p.append("/latest");
            p
        },
        Endpoint::AnnouncementChanges => String::from_str("announcements/changes"),
        Endpoint::Calendar { currency } => {
            let mut p = String::from_str("calendar/");
            p.append(currency);
            p
        },
        Endpoint::Predictions { currency, indicator } => {
            let mut p = String::from_str("predictions/");
            p.append(currency);
            p.append("/");
            p.append(indicator);
            p
        },
        Endpoint::Forex { base, quote } => {
            let mut p = String::from_str("forex/");
            p.append(base);
            p.append("/");
            p.append(quote);
            p
        },
        Endpoint::Cot { currency } => {
            let mut p = String::from_str("cot/");
            p.append(currency);
            p
        },
        Endpoint::Commodity { indicator } => {
            let mut p = String::from_str("commodities/");
            p.append(indicator);
            p
        },
        Endpoint::CommoditiesLatest => String::from_str("commodities/latest"),
        Endpoint::Curves { currency } => {
            let mut p = String::from_str("curves/");
            p.append(currency);
            p
        },
        Endpoint::CurveProxies { currency } => {
            let mut p = String::from_str("curve_proxies/");
            p.append(currency);
            p
        },
        Endpoint::ForwardCurves { currency } => {
            let mut p = String::from_str("forward_curves/");
            p.append(currency);
            p
        },
        Endpoint::RateDifferentials { base, quote } => {
            let mut p = String::from_str("rate_differentials/");
            p.append(base);
            p.append("/");
            p.append(quote);
            p
        },
        Endpoint::ForwardDifferentials { base, quote } => {
            let mut p = String::from_str("forward_differentials/");
            p.append(base);
            p.append("/");
            p.append(quote);
            p
        },
        Endpoint::MarketSessions => String::from_str("market_sessions"),
        Endpoint::RiskSentiment => String::from_str("risk_sentiment"),
        Endpoint::News { currency } => {
            let mut p = String::from_str("news/");
            p.append(currency);
            p
        },
        Endpoint::PressReleases { currency } => {
            let mut p = String::from_str("press-releases/");
            p.append(currency);
            p
        },
        Endpoint::GraphQl => String::from_str("graphql"),
    }
}

/// The path of each endpoint: its fixed segment, then its parameters in
/// the order the API takes them (currency before indicator, base before
/// quote), separated by `/`.
pub proof fn law_endpoint_paths(currency: &str, indicator: &str, base: &str, quote: &str)
    ensures
        endpoint_path_text(Endpoint::DataCatalogue { currency }) == "data_catalogue/"@ + currency@,
        endpoint_path_text(Endpoint::Announcements { currency, indicator }) == "announcements/"@ + currency@ + "/"@ + indicator@,
        endpoint_path_text(Endpoint::LatestAnnouncements { currency }) == "announcements/"@ + currency@ + "/latest"@,
        endpoint_path_text(Endpoint::AnnouncementChanges) == "announcements/changes"@,
        endpoint_path_text(Endpoint::Calendar { currency }) == "calendar/"@ + currency@,
        endpoint_path_text(Endpoint::Predictions { currency, indicator }) == "predictions/"@ + currency@ + "/"@ + indicator@,
        endpoint_path_text(Endpoint::Forex { base, quote }) == "forex/"@ + base@ + "/"@ + quote@,
        endpoint_path_text(Endpoint::Cot { currency }) == "cot/"@ + currency@,
        endpoint_path_text(Endpoint::Commodity { indicator }) == "commodities/"@ + indicator@,
        endpoint_path_text(Endpoint::CommoditiesLatest) == "commodities/latest"@,
        endpoint_path_text(Endpoint::Curves { currency }) == "curves/"@ + currency@,
        endpoint_path_text(Endpoint::CurveProxies { currency }) == "curve_proxies/"@ + currency@,
        endpoint_path_text(Endpoint::ForwardCurves { currency }) == "forward_curves/"@ + currency@,
        endpoint_path_text(Endpoint::RateDifferentials { base, quote }) == "rate_differentials/"@ + base@ + "/"@ + quote@,
        endpoint_path_text(Endpoint::ForwardDifferentials { base, quote }) == "forward_differentials/"@ + base@ + "/"@ + quote@,
        endpoint_path_text(Endpoint::MarketSessions) == "market_sessions"@,
        endpoint_path_text(Endpoint::RiskSentiment) == "risk_sentiment"@,
        endpoint_path_text(Endpoint::News { currency }) == "news/"@ + currency@,
        endpoint_path_text(Endpoint::PressReleases { currency }) == "press-releases/"@ + currency@,
        endpoint_path_text(Endpoint::GraphQl) == "graphql"@,
{
}

/// The number of `/` characters that `path` starts with.
pub open spec fn leading_slashes(path: Seq<char>) -> nat
    decreases path.len(),
{
    if path.len() > 0 && path[0] == '/' {
        1 + leading_slashes(path.skip(1))
    } else {
        0
    }
}

/// `path` without its leading slashes, so that it joins relative to the
/// base URL's path.
pub open spec fn relative_path(path: Seq<char>) -> Seq<char> {
    path.skip(leading_slashes(path) as int)
}

/// The query parameters as text pairs.
pub open spec fn param_texts(params: Seq<(&str, String)>) -> Seq<(Seq<char>, Seq<char>)> {
    params.map_values(|p: (&str, String)| (p.0@, p.1@))
}

/// The URL `url` with the pairs appended in order.
pub open spec fn with_query_pairs(url: Option<Seq<char>>, pairs: Seq<(Seq<char>, Seq<char>)>) -> Option<
    Seq<char>,
>
    decreases pairs.len(),
{
    if pairs.len() == 0 {
        url
    } else {
        match with_query_pairs(url, pairs.drop_last()) {
            Some(u) => url_with_query_pair(u, pairs.last().0, pairs.last().1),
            None => None,
        }
    }
}

/// The endpoint URL of a request: the base joined with the relative path,
/// with the query pairs appended.
pub open spec fn endpoint_url(base: Seq<char>, path: Seq<char>, params: Seq<(&str, String)>) -> Option<
    Seq<char>,
> {
    with_query_pairs(joined_url(base, relative_path(path)), param_texts(params))
}

proof fn lemma_leading_slashes(path: Seq<char>, i: int)
    requires
        0 <= i <= path.len(),
        forall|j: int| 0 <= j < i ==> path[j] == '/',
        i == path.len() || path[i] != '/',
    ensures
        leading_slashes(path) == i,
    decreases i,
{
    if i > 0 {
        let rest = path.skip(1);
        assert forall|j: int| 0 <= j < i - 1 implies rest[j] == '/' by {
            assert(rest[j] == path[j + 1]);
        }
        if i - 1 < rest.len() {
            assert(rest[i - 1] == path[i]);
        }
        lemma_leading_slashes(rest, i - 1);
    }
}

/// Drops the leading slashes of `path` (`trim_start_matches('/')`).
pub fn trim_leading_slashes(path: &str) -> (r: &str)
    ensures
        r@ == relative_path(path@),
{
    let n = path.unicode_len();
    let mut i: usize = 0;
    while i < n && path.get_char(i) == '/'
        invariant
            n == path@.len(),
            i <= n,
            forall|j: int| 0 <= j < i ==> path@[j] == '/',
        decreases n - i,
    {
        i = i + 1;
    }
    proof {
        lemma_leading_slashes(path@, i as int);
    }
    path.substring_char(i, n)
}

/// Builds the URL of a request: `path` (leading slashes dropped) joined to
/// `base_url`, with `params` appended as query pairs in order. Fails with
/// `URL_BUILD_ERROR` when the URL cannot be built.
pub fn build_url(base_url: &str, path: &str, params: &[(&str, String)]) -> (r: Result<
    String,
    String,
>)
    ensures
        match r {
            Ok(u) => endpoint_url(base_url@, path@, params@) == Some(u@),
            Err(t) => endpoint_url(base_url@, path@, params@) is None && t@ == URL_BUILD_ERROR@,
        },
{
    let relative = trim_leading_slashes(path);
    let mut url = match join_url(base_url, relative) {
        Some(u) => u,
        None => {
            proof {
                lemma_none_stays_none(None, param_texts(params@), 0);
            }
            return Err(String::from_str(URL_BUILD_ERROR));
        },
    };
    let ghost pairs = param_texts(params@);
    let mut i: usize = 0;
    while i < params.len()
        invariant
            i <= params.len(),
            pairs == param_texts(params@),
            with_query_pairs(joined_url(base_url@, relative_path(path@)), pairs.take(i as int))
                == Some(url@),
        decreases params.len() - i,
    {
        let (key, value) = &params[i];
        assert(pairs.take(i + 1).drop_last() =~= pairs.take(i as int));
        assert(pairs.take(i + 1).last() == (key@, value@));
        match append_query_pair(url.as_str(), key, value.as_str()) {
            Some(u) => url = u,
            None => {
                proof {
                    lemma_none_stays_none(
                        joined_url(base_url@, relative_path(path@)),
                        pairs,
                        i as int + 1,
                    );
                }
                return Err(String::from_str(URL_BUILD_ERROR));
            },
        }
        i = i + 1;
    }
    assert(pairs.take(params.len() as int) =~= pairs);
    Ok(url)
}

/// Once a step of appending query pairs fails, the whole URL fails.
proof fn lemma_none_stays_none(url: Option<Seq<char>>, pairs: Seq<(Seq<char>, Seq<char>)>, k: int)
    requires
        0 <= k <= pairs.len(),
        with_query_pairs(url, pairs.take(k)) is None,
    ensures
        with_query_pairs(url, pairs) is None,
    decreases pairs.len() - k,
{
    if k < pairs.len() {
        assert(pairs.take(k + 1).drop_last() =~= pairs.take(k));
        lemma_none_stays_none(url, pairs, k + 1);
    } else {
        assert(pairs.take(k) =~= pairs);
    }
}

} // verus!
