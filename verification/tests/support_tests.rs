use disintea_server::clock::{low_64_bits, millis_since_epoch, now_millis, now_secs, secs_since_epoch};
use disintea_server::decimal::to_decimal;
use disintea_server::health;
use disintea_server::history::{history_before, history_from_rows, history_limit, HistoryRow};
use disintea_server::messages::HistoryMessage;
use disintea_server::presence::Online;
use disintea_server::turn::{
    turn_credentials, turn_credentials_at, turn_credentials_from_reading, turn_password, turn_username, TURN_TTL_SECS,
};

#[test]
fn health_says_ok() {
    assert_eq!(health(), "ok");
}

#[test]
fn decimal_notation() {
    assert_eq!(to_decimal(0), "0");
    assert_eq!(to_decimal(7), "7");
    assert_eq!(to_decimal(10), "10");
    assert_eq!(to_decimal(1700086400), "1700086400");
    assert_eq!(to_decimal(u64::MAX), "18446744073709551615");
}

#[test]
fn turn_username_is_expiry_and_suffix() {
    assert_eq!(turn_username(1700086400), "1700086400:disintea");
    assert_eq!(turn_username(0), "0:disintea");
}

#[test]
fn turn_password_is_base64_hmac_sha1() {
    assert_eq!(
        turn_password("change-me-to-a-random-string", "1700086400:disintea"),
        "GKMOF9heDymrCZS6EC3iL3YxOHY="
    );
    assert_eq!(turn_password("", "86400:disintea"), "596RDxc3ZKZTEERXLOXQKErtrg8=");
    let long_key = "k".repeat(100);
    let p = turn_password(&long_key, "86400:disintea");
    assert_eq!(p.len(), 28);
    assert!(p.ends_with('='));
    assert!(p[..27].chars().all(|c| c.is_ascii_alphanumeric() || c == '+' || c == '/'));
    assert_eq!(
        turn_password("key", "The quick brown fox jumps over the lazy dog"),
        "3nybhbi3iqa8ino29wqQcBydtNk="
    );
}

#[test]
fn turn_credentials_expire_a_day_later() {
    let c = turn_credentials_at("change-me-to-a-random-string", "turn:example.org:3478", 1700000000);
    assert_eq!(TURN_TTL_SECS, 86400);
    assert_eq!(c.urls, "turn:example.org:3478");
    assert_eq!(c.username, "1700086400:disintea");
    assert_eq!(c.credential, "GKMOF9heDymrCZS6EC3iL3YxOHY=");
}

#[test]
fn turn_credentials_from_a_reading() {
    assert_eq!(turn_credentials_from_reading("k", "turn:x", None), None);
    let c = turn_credentials_from_reading("change-me-to-a-random-string", "turn:x", Some(1700000000)).unwrap();
    assert_eq!(c.username, "1700086400:disintea");
    assert_eq!(c.credential, "GKMOF9heDymrCZS6EC3iL3YxOHY=");
    let late = turn_credentials_from_reading("k", "turn:x", Some(u64::MAX)).unwrap();
    assert_eq!(late.username, format!("{}:disintea", u64::MAX));
    assert_eq!(turn_credentials_from_reading("k", "turn:x", Some(7)), turn_credentials_from_reading("k", "turn:x", Some(7)));
}

#[test]
fn turn_credentials_now_are_consistent() {
    let before = now_secs().unwrap();
    let c = turn_credentials("s3cret", "turn:x").unwrap();
    let after = now_secs().unwrap();
    let (stamp, suffix) = c.username.split_once(':').unwrap();
    assert_eq!(suffix, "disintea");
    let stamp: u64 = stamp.parse().unwrap();
    assert!(before + TURN_TTL_SECS <= stamp && stamp <= after + TURN_TTL_SECS);
    assert_eq!(c.credential, turn_password("s3cret", &c.username));
    assert_eq!(c.urls, "turn:x");
}

#[test]
fn clock_reads_after_2020() {
    let secs = now_secs().unwrap();
    let millis = now_millis().unwrap();
    assert!(secs > 1_577_836_800);
    assert!(millis / 1000 >= secs && millis / 1000 <= secs + 5);
    assert_eq!(low_64_bits(5), 5);
    assert_eq!(secs_since_epoch(None), None);
    assert_eq!(millis_since_epoch(None), None);
    assert_eq!(secs_since_epoch(Some((1_700_000_000, 999_999_999))), Some(1_700_000_000));
    assert_eq!(millis_since_epoch(Some((1_700_000_000, 999_999_999))), Some(1_700_000_000_999));
    assert_eq!(millis_since_epoch(Some((1_700_000_000, 1_500_000))), Some(1_700_000_000_001));
    let m = millis_since_epoch(Some((1_700_000_000, 123_456_789))).unwrap();
    assert_eq!(m / 1000, secs_since_epoch(Some((1_700_000_000, 123_456_789))).unwrap());
    assert_eq!(millis_since_epoch(Some((u64::MAX, 0))), Some(u64::MAX.wrapping_mul(1000)));
    assert_eq!(low_64_bits((1u128 << 64) + 9), 9);
}

#[test]
fn history_limits() {
    assert_eq!(history_limit(None), 50);
    assert_eq!(history_limit(Some(10)), 10);
    assert_eq!(history_limit(Some(200)), 200);
    assert_eq!(history_limit(Some(201)), 200);
    assert_eq!(history_limit(Some(u32::MAX)), 200);
    assert_eq!(history_limit(Some(0)), 0);
}

#[test]
fn history_bounds() {
    assert_eq!(history_before(None), None);
    assert_eq!(history_before(Some(0)), Some(0));
    assert_eq!(history_before(Some(1_700_000_000_000)), Some(1_700_000_000_000));
    assert_eq!(history_before(Some(i64::MAX as u64)), Some(i64::MAX));
    assert_eq!(history_before(Some(i64::MAX as u64 + 1)), None);
    assert_eq!(history_before(Some(u64::MAX)), None);
}

#[test]
fn history_rows_come_out_oldest_first() {
    let rows = vec![
        HistoryRow { msg_id: "c".into(), from_id: "x".into(), text: "3".into(), timestamp: 30 },
        HistoryRow { msg_id: "b".into(), from_id: "y".into(), text: "2".into(), timestamp: 20 },
        HistoryRow { msg_id: "a".into(), from_id: "x".into(), text: "1".into(), timestamp: -1 },
    ];
    let out = history_from_rows(rows);
    assert_eq!(
        out,
        vec![
            HistoryMessage { msg_id: "a".into(), from_id: "x".into(), text: "1".into(), timestamp: u64::MAX },
            HistoryMessage { msg_id: "b".into(), from_id: "y".into(), text: "2".into(), timestamp: 20 },
            HistoryMessage { msg_id: "c".into(), from_id: "x".into(), text: "3".into(), timestamp: 30 },
        ]
    );
    assert_eq!(history_from_rows(vec![]), vec![]);
}

#[test]
fn registry_insert_get_remove() {
    let mut online = Online::new();
    assert!(!online.contains("a"));
    assert_eq!(online.get("a"), None);
    online.insert("a".into(), "Ann".into(), 5);
    assert!(online.contains("a"));
    assert_eq!(online.get("a"), Some(("Ann".to_string(), 5)));
    assert_eq!(online.connection_of("a"), Some(5));
    assert_eq!(online.username_or_empty("a"), "Ann");
    online.insert("a".into(), "Anna".into(), 6);
    assert_eq!(online.get("a"), Some(("Anna".to_string(), 6)));
    online.remove("a");
    assert!(!online.contains("a"));
    assert_eq!(online.connection_of("a"), None);
    assert_eq!(online.username_or_empty("a"), "");
}
