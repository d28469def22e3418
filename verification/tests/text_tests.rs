use gmessages::models::{GMMessageDirection, GMMessageStatus, GMOutboxItem, GMPairingState, GMThread};
use gmessages::text::{split_on_comma, with_decimal_suffix};

#[test]
fn split_on_comma_keeps_empty_parts() {
    assert_eq!(split_on_comma("a,b"), vec!["a".to_string(), "b".to_string()]);
    assert_eq!(split_on_comma(""), vec!["".to_string()]);
    assert_eq!(split_on_comma(",x,"), vec!["".to_string(), "x".to_string(), "".to_string()]);
    assert_eq!(split_on_comma("+1 555,ü"), vec!["+1 555".to_string(), "ü".to_string()]);
    let s = "p,q,,r";
    let expected: Vec<String> = s.split(',').map(|p| p.to_string()).collect();
    assert_eq!(split_on_comma(s), expected);
}

#[test]
fn decimal_suffixes() {
    assert_eq!(with_decimal_suffix("Outbox item not found: ", 7), "Outbox item not found: 7");
    assert_eq!(with_decimal_suffix("n=", 0), "n=0");
    assert_eq!(with_decimal_suffix("n=", -42), "n=-42");
    assert_eq!(with_decimal_suffix("", i64::MIN), i64::MIN.to_string());
    assert_eq!(with_decimal_suffix("", i64::MAX), i64::MAX.to_string());
}

#[test]
fn retry_backoff_values() {
    let mut item = GMOutboxItem::new_at("t".to_string(), "g".to_string(), "x".to_string(), 1_000);
    assert_eq!(item.created_at, 1_000);
    let expected = [5_000i64, 10_000, 20_000, 40_000, 80_000, 160_000, 320_000, 320_000];
    for (attempts, delay) in expected.iter().enumerate() {
        item.attempts = attempts as i32;
        assert_eq!(item.calculate_next_retry_at(100, 1_000), Some(1_000 + delay));
    }
    item.attempts = 3;
    assert_eq!(item.calculate_next_retry_at(3, 1_000), None);
}

#[test]
fn model_defaults() {
    assert_eq!(GMPairingState::default(), GMPairingState::NotPaired);
    assert_eq!(GMMessageStatus::default(), GMMessageStatus::Queued);
    let t = GMThread::new_at("r".to_string(), 9);
    assert_eq!(t.updated_at, 9);
    assert!(!t.is_group);
    assert_eq!(GMMessageDirection::Incoming, GMMessageDirection::Incoming);
}
