use ad_server::advertisement::{Advertisement, Condition};
use ad_server::country::Country;
use ad_server::gender::Gender;
use ad_server::platform::Platform;
use ad_server::statements::{bind_condition_params, bind_insert_params, Queries, SqlParam};

fn dollars(s: &str) -> usize {
    s.chars().filter(|c| *c == '$').count()
}

#[test]
fn matrix_has_sixteen_statements() {
    let q = Queries::new();
    assert_eq!(q.query_sql.len(), 16);
}

#[test]
fn every_statement_binds_bits_plus_two_parameters() {
    let q = Queries::new();
    for i in 0..16usize {
        let bits = (i & 1) + ((i >> 1) & 1) + ((i >> 2) & 1) + ((i >> 3) & 1);
        assert_eq!(dollars(&q.query_sql[i]), bits + 2, "mask {}", i);
    }
}

#[test]
fn statement_text_no_filters() {
    let q = Queries::new();
    assert_eq!(
        q.query_sql[0],
        "SELECT id, title, end_at FROM advertisement WHERE end_at > now() ORDER BY id LIMIT $1 OFFSET $2"
    );
}

#[test]
fn statement_text_all_filters_in_canonical_order() {
    let q = Queries::new();
    assert_eq!(
        q.query_sql[15],
        "SELECT id, title, end_at FROM advertisement WHERE country = $1 AND platform = $2 AND $3 <@ age_range AND gender = $4 AND end_at > now() ORDER BY id LIMIT $5 OFFSET $6"
    );
}

#[test]
fn statement_lookup_matches_shape() {
    let q = Queries::new();
    let stmt = q.get_query_stmt(true, false, true, false);
    assert_eq!(
        stmt.as_str(),
        "SELECT id, title, end_at FROM advertisement WHERE country = $1 AND $2 <@ age_range AND end_at > now() ORDER BY id LIMIT $3 OFFSET $4"
    );
}

#[test]
fn insert_statement_text() {
    let q = Queries::new();
    assert_eq!(
        q.insert_sql,
        "INSERT INTO advertisement (title, age_range, country, platform, gender, end_at) VALUES ($1, int4range($2, $3, '[]'), $4, $5, $6, $7)"
    );
}

#[test]
fn condition_parameters_follow_canonical_order() {
    let cond = Condition {
        age: Some(30),
        country: Some(Country::from_id(840)),
        platform: None,
        gender: Some(Gender::Female),
    };
    let params = bind_condition_params(&cond, 5, 2);
    assert_eq!(params.len(), 5);
    assert!(matches!(params[0], SqlParam::Int4(840)));
    assert!(matches!(params[1], SqlParam::Int4(30)));
    assert!(matches!(params[2], SqlParam::Int4(2)));
    assert!(matches!(params[3], SqlParam::Int8(5)));
    assert!(matches!(params[4], SqlParam::Int8(2)));
}

#[test]
fn condition_parameters_empty_condition() {
    let cond = Condition { age: None, country: None, platform: None, gender: None };
    let params = bind_condition_params(&cond, 1, 0);
    assert_eq!(params.len(), 2);
    assert!(matches!(params[0], SqlParam::Int8(1)));
    assert!(matches!(params[1], SqlParam::Int8(0)));
}

#[test]
fn insert_parameters_follow_column_order() {
    let ad = Advertisement {
        title: "sale".to_string(),
        age_range: (18, 65),
        country: Some(Country::from_id(840)),
        platform: Some(Platform::Web),
        gender: None,
        end_at: 1893456000,
    };
    let params = bind_insert_params(&ad);
    assert_eq!(params.len(), 7);
    assert!(matches!(&params[0], SqlParam::Text(t) if t == "sale"));
    assert!(matches!(params[1], SqlParam::Int4(18)));
    assert!(matches!(params[2], SqlParam::Int4(65)));
    assert!(matches!(params[3], SqlParam::Int4(840)));
    assert!(matches!(params[4], SqlParam::NullableInt4(Some(3))));
    assert!(matches!(params[5], SqlParam::NullableInt4(None)));
    assert!(matches!(params[6], SqlParam::Timestamp(1893456000)));
}

#[test]
fn absent_country_is_bound_as_zero() {
    let ad = Advertisement {
        title: "sale".to_string(),
        age_range: (0, 99),
        country: None,
        platform: None,
        gender: Some(Gender::Male),
        end_at: 0,
    };
    let params = bind_insert_params(&ad);
    assert!(matches!(params[3], SqlParam::Int4(0)));
    assert!(matches!(params[5], SqlParam::NullableInt4(Some(1))));
}
