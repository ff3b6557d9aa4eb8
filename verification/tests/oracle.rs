use pulsar_governance::account::AccountId;
use pulsar_governance::errors::Error;
use pulsar_governance::oracle::OracleIntegrationContract;

fn acct(id: u64) -> AccountId {
    AccountId::new(id)
}

#[test]
fn test_oracle_initialize() {
    let mut o = OracleIntegrationContract::new();
    let admin = acct(1);
    assert!(o.initialize(admin).is_ok());
}

#[test]
fn test_oracle_initialize_twice() {
    let mut o = OracleIntegrationContract::new();
    o.initialize(acct(1)).unwrap();
    assert_eq!(o.initialize(acct(1)), Err(Error::AlreadyInitialized));
}

#[test]
fn test_oracle_authorization() {
    let mut o = OracleIntegrationContract::new();
    let admin = acct(1);
    let oracle = acct(2);
    let asset = String::from("BTC");

    o.initialize(admin).unwrap();

    // An unauthorized account cannot report a price.
    let res = o.update_price(oracle, asset.clone(), 5000000000000, 95, String::from("binance"), 0);
    assert!(res.is_err());

    // The admin authorizes the oracle.
    o.authorize_oracle(admin, oracle).unwrap();

    // Now the report succeeds.
    o.update_price(oracle, asset.clone(), 5000000000000, 95, String::from("binance"), 0).unwrap();

    // The price was stored.
    let price = o.get_price(&asset).unwrap();
    assert_eq!(price.price_usd, 5000000000000);

    // The admin removes the oracle again.
    o.revoke_oracle(admin, oracle).unwrap();

    // Reporting fails once more.
    let res = o.update_price(oracle, asset.clone(), 5100000000000, 95, String::from("binance"), 0);
    assert!(res.is_err());
}

#[test]
fn test_non_admin_cannot_add_oracle() {
    let mut o = OracleIntegrationContract::new();
    let admin = acct(1);
    let non_admin = acct(2);
    let oracle = acct(3);
    o.initialize(admin).unwrap();
    assert_eq!(o.authorize_oracle(non_admin, oracle), Err(Error::Unauthorized));
    assert!(!o.is_oracle_authorized(oracle));
}

#[test]
fn test_price_feed_fields_and_overwrite() {
    let mut o = OracleIntegrationContract::new();
    o.initialize(acct(1)).unwrap();
    o.authorize_oracle(acct(1), acct(2)).unwrap();
    o.update_price(acct(2), String::from("XLM"), 12345, 80, String::from("sdex"), 11).unwrap();
    let feed = o.get_price(&String::from("XLM")).unwrap();
    assert_eq!(feed.asset, "XLM");
    assert_eq!(feed.price_usd, 12345);
    assert_eq!(feed.confidence, 80);
    assert_eq!(feed.timestamp, 11);
    assert_eq!(feed.source, "sdex");
    // A later report for the same asset replaces the feed.
    o.update_price(acct(2), String::from("XLM"), 99999, 70, String::from("cex"), 12).unwrap();
    let feed = o.get_price(&String::from("XLM")).unwrap();
    assert_eq!(feed.price_usd, 99999);
    assert_eq!(feed.timestamp, 12);
    // Other assets are unknown.
    assert!(o.get_price(&String::from("BTC")).is_none());
}

#[test]
fn test_update_performance() {
    let mut o = OracleIntegrationContract::new();
    o.initialize(acct(1)).unwrap();
    o.authorize_oracle(acct(1), acct(2)).unwrap();
    o.update_performance(acct(2), 7, 1000, 50, 5, 3, 42).unwrap();
    let d = o.get_performance(7).unwrap();
    assert_eq!(d.campaign_id, 7);
    assert_eq!(d.impressions, 1000);
    assert_eq!(d.clicks, 50);
    assert_eq!(d.conversions, 5);
    assert_eq!(d.fraud_score, 3);
    assert_eq!(d.timestamp, 42);
    // Overwrite keeps one record per campaign.
    o.update_performance(acct(2), 7, 2000, 60, 6, 4, 43).unwrap();
    let d = o.get_performance(7).unwrap();
    assert_eq!(d.impressions, 2000);
    assert!(o.get_performance(8).is_none());
    // Unauthorized accounts cannot report performance either.
    assert_eq!(o.update_performance(acct(9), 7, 0, 0, 0, 0, 0), Err(Error::Unauthorized));
}
