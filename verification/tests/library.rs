use pd_override::client::Client;
use pd_override::confirm::confirm_answer;
use pd_override::instant::days_in_month;
use pd_override::persistence::Serialized;

#[test]
fn auth_header_value_prefixes_the_key() {
    let client = Client::new("some-api-key".to_string());
    assert_eq!(client.auth_header_value(), "Token token=some-api-key");
}

#[test]
fn confirm_answer_classification() {
    assert_eq!(confirm_answer(b"y"), Some(true));
    assert_eq!(confirm_answer(b"yes"), Some(true));
    assert_eq!(confirm_answer(b"n"), Some(false));
    assert_eq!(confirm_answer(b"no"), Some(false));
    assert_eq!(confirm_answer(b"maybe"), None);
    assert_eq!(confirm_answer(b""), None);
    assert_eq!(confirm_answer(b"Y"), None);
}

#[test]
fn empty_cache_holds_nothing() {
    let cache = Serialized::empty();
    assert!(cache.users.is_empty());
    assert!(cache.schedules.is_empty());
    assert_eq!(cache.updated_at, 0);
}

#[test]
fn month_lengths() {
    assert_eq!(days_in_month(2023, 1), 31);
    assert_eq!(days_in_month(2023, 2), 28);
    assert_eq!(days_in_month(2024, 2), 29);
    assert_eq!(days_in_month(2000, 2), 29);
    assert_eq!(days_in_month(1900, 2), 28);
    assert_eq!(days_in_month(2023, 4), 30);
    assert_eq!(days_in_month(2023, 12), 31);
}
