use rustforge::ingestion::{build_url, endpoint_path, trim_leading_slashes, Endpoint, DEFAULT_BASE_URL};

const BASE: &str = "https://example.com/api/v1/";

#[test]
fn builds_forex_url_without_api_key_query() {
    let url = build_url(BASE, "forex/eur/usd", &[("limit", "1".to_string())])
        .expect("URL should build");

    assert_eq!(
        url.as_str(),
        "https://example.com/api/v1/forex/eur/usd?limit=1"
    );
}

#[test]
fn preserves_base_path_for_full_endpoint_surface() {
    for path in [
        "data_catalogue/usd",
        "announcements/usd/non_farm_payrolls",
        "announcements/usd/latest",
        "announcements/changes",
        "calendar/usd",
        "predictions/usd/non_farm_payrolls",
        "cot/usd",
        "commodities/brent",
        "commodities/latest",
        "curves/usd",
        "curve_proxies/usd",
        "forward_curves/usd",
        "rate_differentials/eur/usd",
        "forward_differentials/eur/usd",
        "market_sessions",
        "risk_sentiment",
        "news/usd",
        "press-releases/usd",
        "graphql",
    ] {
        let url = build_url(BASE, path, &[]).expect("URL should build");
        assert!(
            url.as_str().starts_with("https://example.com/api/v1/"),
            "{url}"
        );
        assert!(!url.as_str().contains("api_key"), "{url}");
    }
}

#[test]
fn leading_slashes_do_not_escape_the_base_path() {
    assert_eq!(trim_leading_slashes("//forex/eur/usd"), "forex/eur/usd");
    assert_eq!(trim_leading_slashes("forex"), "forex");
    assert_eq!(trim_leading_slashes("///"), "");
    let url = build_url(BASE, "/calendar/usd", &[]).unwrap();
    assert_eq!(url, "https://example.com/api/v1/calendar/usd");
}

#[test]
fn query_pairs_are_appended_in_order_and_encoded() {
    let url = build_url(
        BASE,
        "news/usd",
        &[("limit", "5".to_string()), ("q", "rate cut & hike".to_string())],
    )
    .unwrap();
    assert_eq!(url, "https://example.com/api/v1/news/usd?limit=5&q=rate+cut+%26+hike");
}

#[test]
fn invalid_base_url_fails_to_build() {
    let err = build_url("not a url", "forex/eur/usd", &[]).unwrap_err();
    assert_eq!(err, "failed to build FXMacroData endpoint URL");
}

#[test]
fn default_base_url_builds() {
    let url = build_url(DEFAULT_BASE_URL, "market_sessions", &[]).unwrap();
    assert_eq!(url, "https://fxmacrodata.com/api/v1/market_sessions");
}

#[test]
fn endpoint_paths() {
    assert_eq!(endpoint_path(&Endpoint::Forex { base: "eur", quote: "usd" }), "forex/eur/usd");
    assert_eq!(
        endpoint_path(&Endpoint::LatestAnnouncements { currency: "usd" }),
        "announcements/usd/latest"
    );
    assert_eq!(
        endpoint_path(&Endpoint::Announcements { currency: "usd", indicator: "cpi" }),
        "announcements/usd/cpi"
    );
    assert_eq!(endpoint_path(&Endpoint::AnnouncementChanges), "announcements/changes");
    assert_eq!(endpoint_path(&Endpoint::PressReleases { currency: "gbp" }), "press-releases/gbp");
    assert_eq!(endpoint_path(&Endpoint::Commodity { indicator: "brent" }), "commodities/brent");
    assert_eq!(
        endpoint_path(&Endpoint::ForwardDifferentials { base: "eur", quote: "usd" }),
        "forward_differentials/eur/usd"
    );
    assert_eq!(endpoint_path(&Endpoint::GraphQl), "graphql");
}
