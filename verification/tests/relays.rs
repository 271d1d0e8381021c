use messenger_backend::config::StaticRelay;
use messenger_backend::constants::{ONION_MIN_HOPS, RELAY_FAILURE_THRESHOLD};
use messenger_backend::errors::MessengerError;
use messenger_backend::network::relay::registry::{parse_hex_key, RelayEntry, RelayRegistry};
use messenger_backend::network::relay::scoring::{OnionKeySource, RelayScoring};
use messenger_backend::network::relay::static_source::StaticOnionKeySource;

fn entry(id: &str, byte: u8) -> RelayEntry {
    RelayEntry {
        relay_id: id.to_string(),
        address: format!("/ip4/10.0.0.{byte}/tcp/9001"),
        onion_public_key: [byte; 32],
    }
}

fn registry(ids: &[(&str, u8)]) -> RelayRegistry {
    let mut registry = RelayRegistry::new();
    registry.update(&ids.iter().map(|(id, byte)| entry(id, *byte)).collect());
    registry
}

fn names(list: &[&str]) -> Vec<String> {
    list.iter().map(|s| s.to_string()).collect()
}

#[test]
fn failure_threshold_excludes_relay() {
    let mut scoring = RelayScoring::new();

    let relay = "relay_flaky".to_string();
    for _ in 0..RELAY_FAILURE_THRESHOLD {
        scoring.record_failure(&relay);
    }
    assert!(scoring.is_excluded(&relay));

    scoring.record_success(&relay);
    assert!(!scoring.is_excluded(&relay));
}

#[test]
fn fewer_failures_do_not_exclude() {
    let mut scoring = RelayScoring::new();
    let relay = "relay".to_string();
    for _ in 1..RELAY_FAILURE_THRESHOLD {
        scoring.record_failure(&relay);
    }
    assert!(!scoring.is_excluded(&relay));
    assert!(!scoring.is_excluded(&"other".to_string()));
}

#[test]
fn routes_take_the_best_usable_relays() {
    let known = registry(&[("a", 1), ("b", 2), ("c", 3), ("d", 4)]);
    let mut scoring = RelayScoring::new();
    for _ in 0..RELAY_FAILURE_THRESHOLD {
        scoring.record_failure(&"b".to_string());
    }
    let hops = scoring
        .select_hops(3, &names(&["x", "a", "b", "c", "d"]), &known)
        .unwrap();
    let ids: Vec<&str> = hops.iter().map(|h| h.relay_id.as_str()).collect();
    assert_eq!(ids, ["a", "c", "d"]);
    assert_eq!(hops[1].onion_key, [3; 32]);
}

#[test]
fn short_lists_are_refused() {
    let known = registry(&[("a", 1), ("b", 2)]);
    let scoring = RelayScoring::new();
    assert!(matches!(
        scoring.select_hops(3, &names(&["a", "b"]), &known),
        Err(MessengerError::OnionChainTooShort { min: ONION_MIN_HOPS, got: 2 })
    ));
    let exit = scoring.select_exit_from(&names(&["x", "b"]), &known).unwrap();
    assert_eq!(exit.relay_id, "b");
    assert!(matches!(
        scoring.select_exit_from(&names(&["x"]), &known),
        Err(MessengerError::OnionChainTooShort { min: 1, got: 0 })
    ));
}

#[test]
fn candidate_limit_is_four_routes() {
    assert_eq!(RelayScoring::candidate_limit(1), 12);
    assert_eq!(RelayScoring::candidate_limit(4), 16);
    assert_eq!(RelayScoring::candidate_limit(100), 20);
}

#[test]
fn updates_replace_all_relays() {
    let mut known = registry(&[("a", 1), ("b", 2)]);
    assert!(!known.is_empty());
    known.update(&vec![entry("b", 7), entry("c", 3), entry("b", 8)]);
    let mut ids = known.relay_ids();
    ids.sort();
    assert_eq!(ids, names(&["b", "c"]));
    assert_eq!(known.all_entries().len(), 2);
    assert_eq!(known.fetch_onion_key(&"b".to_string()).unwrap(), [8; 32]);
    assert!(matches!(
        known.fetch_onion_key(&"a".to_string()),
        Err(MessengerError::OnionKeyNotFound(_))
    ));
    known.update(&Vec::new());
    assert!(known.is_empty());
}

#[test]
fn keys_are_read_from_hex() {
    let text = "0f".repeat(32);
    assert_eq!(parse_hex_key(&text), Some([15; 32]));
    assert_eq!(parse_hex_key(&text.to_uppercase()), Some([15; 32]));
    assert_eq!(parse_hex_key(&text[2..]), None);
    assert_eq!(parse_hex_key(&text[1..]), None);
    assert_eq!(parse_hex_key(&"zz".repeat(32)), None);

    let good = RelayEntry::from_hex_key("id".to_string(), "addr".to_string(), &text).unwrap();
    assert_eq!(good.onion_public_key, [15; 32]);
    assert_eq!(good.relay_id, "id");
    assert!(RelayEntry::from_hex_key("id".to_string(), "addr".to_string(), "00").is_none());

    let triples = vec![
        ("a".to_string(), "x".to_string(), text.clone()),
        ("b".to_string(), "y".to_string(), "bad".to_string()),
        ("c".to_string(), "z".to_string(), text),
    ];
    let entries = RelayRegistry::entries_from_hex(&triples);
    assert_eq!(entries.len(), 2);
    assert_eq!(entries[1].relay_id, "c");
}

#[test]
fn configured_relays_have_keys() {
    let relay = |id: &str, key: String| StaticRelay {
        relay_id: id.to_string(),
        address: String::new(),
        onion_public_key_hex: key,
    };
    let source = StaticOnionKeySource::from_config(&vec![
        relay("a", "01".repeat(32)),
        relay("b", "nonsense".to_string()),
    ]);
    assert_eq!(source.fetch_onion_key(&"a".to_string()).unwrap(), [1; 32]);
    assert!(source.fetch_onion_key(&"b".to_string()).is_err());
}
