use messenger_backend::cli::{parse_line, CliCommand, CliTopic};
use messenger_backend::clock::time_of;
use messenger_backend::config::{Config, StaticRelay, Variables};
use messenger_backend::errors::MessengerError;
use messenger_backend::identity::Identity;
use messenger_backend::network::dht::lookup::bundle_from_record;
use messenger_backend::network::dht::record::{signable_bytes, DhtRecordBuilder};
use messenger_backend::network::p2p::NodeCommand;
use messenger_backend::network::relay::registry::{RelayEntry, RelayRegistry};
use messenger_backend::services::background::{fetch_round, next_dummy, pick_relay};
use messenger_backend::services::bootstrap::{
    apply_relays, check_bootstrap_url, complete_reports, desktop_retry_delay, relay_list,
    relays_url, retry_delay, server_port, BootstrapError, RelayInfo, UrlError,
};
use messenger_backend::services::dummy::{interval_from, random_interval_secs};
use messenger_backend::services::startup::{
    identity_at_start, my_prekeys_at, my_record_at, onion_key_at_start, server_at_start,
    x3dh_keys_at_start,
};
use messenger_backend::services::sync::sync_on_startup;
use messenger_backend::storage::db::{
    chronological, contact_identity_key, entered_public_key, identity_from_row, onion_key_from_row,
    x3dh_keys_from_row, HistoryRow,
};
use messenger_backend::text;

fn names(list: &[&str]) -> Vec<String> {
    list.iter().map(|s| s.to_string()).collect()
}

// --- clock ---

#[test]
fn a_clock_before_the_epoch_reads_zero() {
    assert_eq!(time_of(Some(1_700_000_000)), 1_700_000_000);
    assert_eq!(time_of(Some(0)), 0);
    assert_eq!(time_of(None), 0);
}

// --- dummy traffic ---

#[test]
fn interval_in_range() {
    for _ in 0..200 {
        let v = random_interval_secs(5, 15);
        assert!(v >= 5 && v < 15, "interval {v} out of [5, 15)");
    }
}

#[test]
fn interval_degenerate() {
    assert_eq!(random_interval_secs(10, 10), 10);
    assert_eq!(random_interval_secs(20, 5), 20);
}

#[test]
fn interval_follows_the_draw() {
    assert_eq!(interval_from(0, 5, 15), 5);
    assert_eq!(interval_from(19, 5, 15), 14);
    assert_eq!(interval_from(u64::MAX, 0, u64::MAX), 0);
}

// --- background and start ---

#[test]
fn dummies_go_to_known_relays() {
    assert_eq!(pick_relay(&Vec::new(), 7), None);
    assert_eq!(pick_relay(&names(&["a", "b", "c"]), 7), Some("b".to_string()));
    assert!(next_dummy(&Vec::new()).is_none());
    assert!(matches!(
        next_dummy(&names(&["a"])),
        Some(NodeCommand::SendDummy { relay_id }) if relay_id == "a"
    ));
}

#[test]
fn every_relay_is_asked() {
    let commands = fetch_round(&names(&["a", "b"]));
    assert_eq!(commands.len(), 2);
    assert!(matches!(
        &commands[1],
        NodeCommand::FetchMailbox { relay_id } if relay_id == "b"
    ));
}

#[test]
fn start_fetches_and_publishes() {
    let mut known = RelayRegistry::new();
    let commands = sync_on_startup(&known);
    assert_eq!(commands.len(), 1);
    assert!(matches!(commands[0], NodeCommand::RepublishDht));
    known.update(&vec![RelayEntry {
        relay_id: "r".to_string(),
        address: String::new(),
        onion_public_key: [0; 32],
    }]);
    let commands = sync_on_startup(&known);
    assert_eq!(commands.len(), 2);
    assert!(matches!(
        &commands[0],
        NodeCommand::FetchMailbox { relay_id } if relay_id == "r"
    ));
    assert!(matches!(commands[1], NodeCommand::RepublishDht));
}

#[test]
fn stored_keys_are_kept() {
    let (me, fresh) = identity_at_start(Some(([9; 32], "ignored".to_string())));
    assert!(!fresh);
    assert_eq!(me.export_secret_bytes(), [9; 32]);
    let (other, fresh) = identity_at_start(None);
    assert!(fresh);
    assert_ne!(other.user_id, me.user_id);
    assert_eq!(x3dh_keys_at_start(Some(([7; 32], [8; 32]))), (([7; 32], [8; 32]), false));
    let (keys, fresh) = x3dh_keys_at_start(None);
    assert!(fresh);
    assert_ne!(keys.0, keys.1);
    assert_eq!(onion_key_at_start(Some([1; 32])), ([1; 32], false));
    assert!(onion_key_at_start(None).1);
}

#[test]
fn configured_server_comes_first() {
    let text = |s: &str| Some(s.to_string());
    assert_eq!(server_at_start(text("a"), text("b")), text("a"));
    assert_eq!(server_at_start(None, text("b")), text("b"));
    assert_eq!(server_at_start(None, None), None);
}

#[test]
fn own_records_are_accepted() {
    let me = Identity::generate();
    let record = my_record_at(&me, 1000).unwrap();
    assert_eq!(record.user_id, me.user_id);
    assert_eq!(record.public_key, me.verifying_key);
    assert!(record.mailbox_candidates.is_empty());
    let key = me.verifying_key;
    let valid = Identity::verify_bytes(&key, &signable_bytes(&record), &record.signature);
    assert_eq!(DhtRecordBuilder::verify_at(&record, 1000, valid), Ok(()));
}

#[test]
fn own_prekeys_make_a_bundle() {
    let me = Identity::generate();
    let public = |secret: [u8; 32]| {
        x25519_dalek::PublicKey::from(&x25519_dalek::StaticSecret::from(secret)).to_bytes()
    };
    let record = my_prekeys_at(&me, &[1; 32], &[2; 32], &vec![[3; 32], [4; 32]], 1000).unwrap();
    assert_eq!(record.one_time_prekeys.len(), 2);
    let bundle = bundle_from_record(&me.user_id, &me.verifying_key, record, 1000).unwrap();
    assert_eq!(bundle.identity_key, public([1; 32]));
    assert_eq!(bundle.signed_prekey, public([2; 32]));
    assert_eq!(bundle.one_time_prekey, Some(public([3; 32])));
}

// --- bootstrap ---

#[test]
fn relays_are_reported_under_one_address() {
    assert_eq!(relays_url("http://host:80"), "http://host:80/relays");
    assert_eq!(relays_url("http://host//"), "http://host/relays");
    assert_eq!(relays_url(""), "/relays");
}

#[test]
fn bootstrap_addresses_are_checked() {
    assert_eq!(check_bootstrap_url("  http://a \n"), Ok("http://a".to_string()));
    assert_eq!(check_bootstrap_url("https://b"), Ok("https://b".to_string()));
    assert_eq!(check_bootstrap_url(" \t"), Err(UrlError::Empty));
    assert_eq!(check_bootstrap_url("ftp://c"), Err(UrlError::Scheme));
    assert_eq!(check_bootstrap_url("HTTP://c"), Err(UrlError::Scheme));
}

#[test]
fn incomplete_reports_are_left_out() {
    let some = |s: &str| Some(s.to_string());
    let reports = vec![
        (some("a"), some("addr"), some("key")),
        (some("b"), None, some("key")),
        (None, some("addr"), some("key")),
    ];
    let relays = complete_reports(&reports).unwrap();
    assert_eq!(relays.len(), 1);
    assert_eq!(relays[0].peer_id, "a");
    assert!(matches!(
        complete_reports(&vec![(None, None, None)]),
        Err(BootstrapError::NoRelays)
    ));
}

#[test]
fn only_relays_with_valid_keys_are_applied() {
    let relay = |id: &str, key: &str| RelayInfo {
        peer_id: id.to_string(),
        multiaddr: "/x".to_string(),
        onion_public_key: key.to_string(),
    };
    let good = "ab".repeat(32);
    match apply_relays(&vec![relay("a", "bad"), relay("b", &good)]) {
        Ok(NodeCommand::UpdateRelays { relays }) => {
            assert_eq!(relays.len(), 1);
            assert_eq!(relays[0].relay_id, "b");
            assert_eq!(relays[0].address, "/x");
            assert_eq!(relays[0].onion_public_key, [0xab; 32]);
        }
        other => panic!("expected an update, got {other:?}"),
    }
    assert!(matches!(
        apply_relays(&vec![relay("a", "bad")]),
        Err(BootstrapError::NoValidRelays)
    ));
    assert!(apply_relays(&Vec::new()).is_err());
}

#[test]
fn retries_wait_longer_and_end() {
    let waits: Vec<Option<u64>> = (1..=5).map(retry_delay).collect();
    assert_eq!(waits, [Some(3), Some(6), Some(9), Some(12), None]);
    assert_eq!(desktop_retry_delay(0), Some(3));
    let waits: Vec<Option<u64>> = (1..=8).map(desktop_retry_delay).collect();
    assert_eq!(
        waits,
        [
            Some(3),
            Some(6),
            Some(12),
            Some(24),
            Some(48),
            Some(96),
            Some(120),
            None
        ]
    );
}

#[test]
fn server_port_has_a_default() {
    assert_eq!(server_port(&None), 8080);
    assert_eq!(server_port(&Some("9000".to_string())), 9000);
    assert_eq!(server_port(&Some("70000".to_string())), 8080);
    assert_eq!(server_port(&Some("x".to_string())), 8080);
}

// --- configuration ---

fn no_variables() -> Variables {
    Variables {
        listen_port: None,
        db_path: None,
        bootstrap_nodes: None,
        is_relay: None,
        relay_max_bandwidth_kbps: None,
        pow_difficulty_bits: None,
        static_relays: None,
        bootstrap_url: None,
    }
}

#[test]
fn defaults_stand_without_variables() {
    for config in [Config::default(), Config::from_env(no_variables())] {
        assert_eq!(config.listen_port, 0);
        assert_eq!(config.db_path, "./messenger.db");
        assert_eq!(config.bootstrap_nodes, ["/ip4/127.0.0.1/tcp/4001"]);
        assert!(!config.is_relay);
        assert_eq!(config.relay_max_bandwidth_kbps, 1000);
        assert_eq!(config.pow_difficulty_bits, 20);
        assert_eq!(config.dummy_traffic_interval_secs_min, 20);
        assert_eq!(config.dummy_traffic_interval_secs_max, 40);
        assert!(config.static_relays.is_empty());
        assert!(config.bootstrap_url.is_none());
    }
}

#[test]
fn variables_change_the_defaults() {
    let text = |s: &str| Some(s.to_string());
    let config = Config::from_env(Variables {
        listen_port: text("4001"),
        db_path: text("/tmp/x.db"),
        bootstrap_nodes: text(" /a , ,/b,"),
        is_relay: text(" TRUE "),
        relay_max_bandwidth_kbps: text("+7"),
        pow_difficulty_bits: text("12"),
        static_relays: Some(vec![StaticRelay {
            relay_id: "r".to_string(),
            address: String::new(),
            onion_public_key_hex: String::new(),
        }]),
        bootstrap_url: text("http://x"),
    });
    assert_eq!(config.listen_port, 4001);
    assert_eq!(config.db_path, "/tmp/x.db");
    assert_eq!(config.bootstrap_nodes, ["/a", "/b"]);
    assert!(config.is_relay);
    assert_eq!(config.relay_max_bandwidth_kbps, 7);
    assert_eq!(config.pow_difficulty_bits, 12);
    assert_eq!(config.static_relays.len(), 1);
    assert_eq!(config.bootstrap_url.as_deref(), Some("http://x"));
}

#[test]
fn unreadable_variables_leave_the_defaults() {
    let text = |s: &str| Some(s.to_string());
    let mut vars = no_variables();
    vars.listen_port = text("65536");
    vars.is_relay = text("yes");
    vars.relay_max_bandwidth_kbps = text("-1");
    vars.pow_difficulty_bits = text("");
    let config = Config::from_env(vars);
    assert_eq!(config.listen_port, 0);
    assert!(!config.is_relay);
    assert_eq!(config.relay_max_bandwidth_kbps, 1000);
    assert_eq!(config.pow_difficulty_bits, 20);
}

#[test]
fn application_directory_holds_the_database() {
    let config = Config::default().with_android_paths("/data/app");
    assert_eq!(config.db_path, "/data/app/messenger.db");
    assert_eq!(config.pow_difficulty_bits, 20);
}

// --- texts ---

#[test]
fn numbers_are_read_as_std_reads_them() {
    for s in ["0", "007", "+5", "65535", "65536", "", "+", "-0", " 1", "1_0", "+ 1"] {
        let expected = s.parse::<u16>().ok().map(u64::from);
        assert_eq!(text::parse_decimal(s, u16::MAX as u64), expected, "{s:?}");
    }
    assert_eq!(
        text::parse_decimal("18446744073709551615", u64::MAX),
        Some(u64::MAX)
    );
    assert_eq!(text::parse_decimal("18446744073709551616", u64::MAX), None);
}

#[test]
fn white_space_is_that_of_std() {
    for code in 0..0x11_0000u32 {
        if let Some(c) = char::from_u32(code) {
            assert_eq!(text::is_white_space(c), c.is_whitespace(), "{code:x}");
        }
    }
    for s in ["", "  ", " a b ", "\u{3000}x\n", "ы "] {
        assert_eq!(text::trim(s), s.trim());
    }
}

// --- console ---

#[test]
fn console_reads_commands() {
    assert!(matches!(parse_line("  "), CliCommand::Nothing));
    assert!(matches!(parse_line("HELP"), CliCommand::Help));
    assert!(matches!(parse_line("myid"), CliCommand::MyId));
    assert!(matches!(parse_line("contacts"), CliCommand::Contacts));
    assert!(matches!(parse_line("relays"), CliCommand::Relays));
    assert!(matches!(parse_line("exit"), CliCommand::Exit));
    assert!(matches!(parse_line("Quit now"), CliCommand::Exit));
    assert!(matches!(
        parse_line("frob x"),
        CliCommand::Unknown { word } if word == "frob"
    ));
}

#[test]
fn console_reads_messages() {
    match parse_line("send bob  привет  мир ") {
        CliCommand::Send { to, text } => {
            assert_eq!(to, "bob");
            assert_eq!(text, " привет  мир");
        }
        other => panic!("expected a message, got {other:?}"),
    }
    assert!(matches!(parse_line("send bob"), CliCommand::Usage(CliTopic::Send)));
    assert!(matches!(parse_line("send"), CliCommand::Usage(CliTopic::Send)));
    assert!(matches!(
        parse_line("history bob"),
        CliCommand::History { limit: 50, .. }
    ));
    assert!(matches!(
        parse_line("history bob 7"),
        CliCommand::History { limit: 7, .. }
    ));
    assert!(matches!(
        parse_line("history bob x"),
        CliCommand::History { limit: 50, .. }
    ));
    assert!(matches!(parse_line("history"), CliCommand::Usage(CliTopic::History)));
}

#[test]
fn console_reads_contacts() {
    let key = "0a".repeat(32);
    match parse_line(&format!("addcontact bob {key} Bob the First")) {
        CliCommand::AddContact { user_id, public_key, name } => {
            assert_eq!(user_id, "bob");
            assert_eq!(public_key, vec![10; 32]);
            assert_eq!(name, "Bob the First");
        }
        other => panic!("expected a contact, got {other:?}"),
    }
    assert!(matches!(
        parse_line(&format!("addcontact bob {key}")),
        CliCommand::AddContact { name, .. } if name == "bob"
    ));
    assert!(matches!(
        parse_line("addcontact bob zz"),
        CliCommand::MalformedKey
    ));
    assert!(matches!(
        parse_line("addcontact bob 0a0b"),
        CliCommand::KeyLength { got: 2 }
    ));
    assert!(matches!(
        parse_line("addcontact bob"),
        CliCommand::Usage(CliTopic::AddContact)
    ));
}

// --- rows of the database ---

#[test]
fn damaged_keys_count_as_none() {
    assert_eq!(
        identity_from_row(&[9; 32], "me".to_string()),
        Some(([9; 32], "me".to_string()))
    );
    assert_eq!(identity_from_row(&[9; 31], "me".to_string()), None);
    assert_eq!(x3dh_keys_from_row(&[7; 32], &[8; 32]), Some(([7; 32], [8; 32])));
    assert_eq!(x3dh_keys_from_row(&[7; 32], &[8; 33]), None);
    assert_eq!(onion_key_from_row(&[1; 32]), Some([1; 32]));
    assert_eq!(onion_key_from_row(&[]), None);
    assert_eq!(entered_public_key("0aff"), Some(vec![10, 255]));
    assert_eq!(entered_public_key("0af"), None);
}

#[test]
fn contacts_verify_with_their_stored_key() {
    let bob = Identity::generate();
    assert_eq!(
        contact_identity_key(&bob.user_id, Some(bob.verifying_key.to_vec())).unwrap(),
        bob.verifying_key
    );
    assert!(matches!(
        contact_identity_key(&bob.user_id, Some(vec![1, 2])),
        Err(MessengerError::IdentityKeyNotFound(_))
    ));
    assert!(contact_identity_key(&bob.user_id, None).is_err());
}

#[test]
fn history_is_shown_in_order() {
    let row = |text: &str, sent_at: i64| HistoryRow {
        direction: "sent".to_string(),
        text: text.to_string(),
        sent_at,
    };
    let rows = vec![row("d", 9), row("b", 5), row("c", 5), row("a", -1)];
    let sorted = chronological(rows);
    let texts: Vec<&str> = sorted.iter().map(|r| r.text.as_str()).collect();
    assert_eq!(texts, ["a", "b", "c", "d"]);
}

#[test]
fn relay_lists_are_found_under_their_key_or_bare() {
    let report = |name: &str| {
        vec![(Some(name.to_string()), Some("/dns/r/tcp/1".to_string()), Some("00".to_string()))]
    };
    let found = relay_list(Some(report("keyed")), Some(report("bare"))).unwrap();
    assert_eq!(found[0].peer_id, "keyed");
    let found = relay_list(None, Some(report("bare"))).unwrap();
    assert_eq!(found[0].peer_id, "bare");
    assert!(matches!(relay_list(None, None), Err(BootstrapError::NoList)));
    assert!(matches!(
        relay_list(Some(vec![(None, None, None)]), Some(report("bare"))),
        Err(BootstrapError::NoRelays)
    ));
}
