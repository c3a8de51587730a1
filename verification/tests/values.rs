use ad_server::advertisement::{Advertisement, AdvertisementError};
use ad_server::config::Config;
use ad_server::country::{Country, CountryParseError};
use ad_server::gender::Gender;
use ad_server::platform::Platform;
use ad_server::request::{default_limit, plan_read, Params, ReadPlan};
use ad_server::time::{format_datetime, parse_datetime};

#[test]
fn country_parse_alpha2() {
    let c = Country::parse("US").unwrap();
    assert_eq!(c.into_id(), 840);
}

#[test]
fn country_parse_alpha3_caseless() {
    let c = Country::parse("usa").unwrap();
    assert_eq!(c.into_id(), 840);
    let gb = Country::parse("GBR").unwrap();
    assert_eq!(gb.into_id(), 826);
}

#[test]
fn country_parse_rejects_bad_length() {
    assert_eq!(Country::parse("U"), Err(CountryParseError::InvalidLength));
    assert_eq!(Country::parse("ABCD"), Err(CountryParseError::InvalidLength));
}

#[test]
fn country_parse_rejects_unknown() {
    assert_eq!(Country::parse("ZZ"), Err(CountryParseError::UnknownCode));
    assert_eq!(Country::parse("ZZZ"), Err(CountryParseError::UnknownCode));
}

#[test]
fn country_name_of_id() {
    let c = Country::from_id(840);
    assert_eq!(c.into_code().unwrap(), "United States of America");
    assert!(Country::from_id(1).into_code().is_none());
}

#[test]
fn country_default_is_usa() {
    let c: Country = Default::default();
    assert_eq!(c.into_id(), 840);
}

#[test]
fn gender_codes() {
    assert_eq!(Gender::Unspecified.code(), 0);
    assert_eq!(Gender::Male.code(), 1);
    assert_eq!(Gender::Female.code(), 2);
    let g: Gender = Default::default();
    assert_eq!(g, Gender::Unspecified);
}

#[test]
fn platform_codes() {
    assert_eq!(Platform::Android.code(), 1);
    assert_eq!(Platform::Ios.code(), 2);
    assert_eq!(Platform::Web.code(), 3);
    assert_eq!(Platform::Desktop.code(), 4);
    assert_eq!(Platform::Mobile.code(), 5);
    assert_eq!(Platform::Tablet.code(), 6);
    assert_eq!(Platform::Console.code(), 7);
    assert_eq!(Platform::SmartTv.code(), 8);
    assert_eq!(Platform::Other.code(), 9);
}

#[test]
fn datetime_parse_and_format() {
    assert_eq!(parse_datetime("2030-01-01 00:00:00"), Some(1893456000));
    assert_eq!(parse_datetime("not a date"), None);
    assert_eq!(format_datetime(1893456000).unwrap(), "2030-01-01 00:00:00");
}

#[test]
fn advertisement_new_validates() {
    let ad = Advertisement::new(
        "sale".to_string(),
        18,
        65,
        Some(Country::from_id(840)),
        None,
        None,
        "2030-01-01 00:00:00",
    )
    .unwrap();
    assert_eq!(ad.title, "sale");
    assert_eq!(ad.age_range, (18, 65));
    assert_eq!(ad.end_at, 1893456000);

    let e1 = Advertisement::new("".to_string(), 18, 65, None, None, None, "2030-01-01 00:00:00");
    assert!(matches!(e1, Err(AdvertisementError::EmptyTitle)));
    let e2 = Advertisement::new("x".to_string(), 65, 18, None, None, None, "2030-01-01 00:00:00");
    assert!(matches!(e2, Err(AdvertisementError::InvertedAgeRange)));
    let e3 = Advertisement::new("x".to_string(), 18, 65, None, None, None, "soon");
    assert!(matches!(e3, Err(AdvertisementError::BadTimestamp)));
}

#[test]
fn config_connection_text() {
    let text = Config::default().with_host("db.example").to_stringlike();
    assert_eq!(
        text,
        "host=db.example port=5432 user=eason password=postgres dbname=ad-server"
    );
    let text2 = Config::default().with_password("hunter2").to_stringlike();
    assert_eq!(
        text2,
        "host=localhost port=5432 user=eason password=hunter2 dbname=ad-server"
    );
}

#[test]
fn default_limit_is_one() {
    assert_eq!(default_limit(), 1);
}

#[test]
fn zero_limit_short_circuits() {
    let p = Params {
        offset: 0,
        limit: 0,
        age: None,
        country: None,
        platform: None,
        gender: None,
    };
    assert_eq!(plan_read(&p), ReadPlan::Empty);
    let q = Params { limit: 1, ..p };
    assert_eq!(plan_read(&q), ReadPlan::Fetch);
}
