//! The node's configuration.
use vstd::prelude::*;

use crate::text;

verus! {

/// A relay as a bootstrap server or a configuration file reports it.
#[derive(Debug)]
pub struct RelayInfo {
    /// The relay's name in the network.
    pub relay_id: String,
    /// Where to connect.
    pub address: String,
    /// The relay's onion key, in 64 hexadecimal digits.
    pub onion_public_key_hex: String,
}

/// A relay that is known from the start.
pub type StaticRelay = RelayInfo;

/// How the node runs.
#[derive(Debug)]
pub struct Config {
    pub listen_port: u16,
    pub db_path: String,
    /// The nodes to connect to first.
    pub bootstrap_nodes: Vec<String>,
    pub is_relay: bool,
    pub relay_max_bandwidth_kbps: u32,
    pub pow_difficulty_bits: u32,
    pub dummy_traffic_interval_secs_min: u64,
    pub dummy_traffic_interval_secs_max: u64,
    /// The relays that are known from the start.
    pub static_relays: Vec<StaticRelay>,
    /// The server that reports relays.
    pub bootstrap_url: Option<String>,
}

/// The variables from which a configuration is made, where they are set.
#[derive(Debug)]
pub struct Variables {
    pub listen_port: Option<String>,
    pub db_path: Option<String>,
    pub bootstrap_nodes: Option<String>,
    pub is_relay: Option<String>,
    pub relay_max_bandwidth_kbps: Option<String>,
    pub pow_difficulty_bits: Option<String>,
    /// The list of relays, where it is set and could be decoded.
    pub static_relays: Option<Vec<StaticRelay>>,
    pub bootstrap_url: Option<String>,
}

/// The default values.
pub open spec fn is_default(c: Config) -> bool {
    &&& c.listen_port == 0
    &&& c.db_path@ == "./messenger.db"@
    &&& text::texts(c.bootstrap_nodes@) == seq!["/ip4/127.0.0.1/tcp/4001"@]
    &&& !c.is_relay
    &&& c.relay_max_bandwidth_kbps == 1000
    &&& c.pow_difficulty_bits == 20
    &&& c.dummy_traffic_interval_secs_min == 20
    &&& c.dummy_traffic_interval_secs_max == 40
    &&& c.static_relays@.len() == 0
    &&& c.bootstrap_url is None
}

impl Default for Config {
    fn default() -> (config: Self)
        ensures
            is_default(config),
    {
        let bootstrap_nodes: Vec<String> = vec!["/ip4/127.0.0.1/tcp/4001".to_owned()];
        assert(text::texts(bootstrap_nodes@) =~= seq!["/ip4/127.0.0.1/tcp/4001"@]);
        Config {
            listen_port: 0,
            db_path: "./messenger.db".to_owned(),
            bootstrap_nodes,
            is_relay: false,
            relay_max_bandwidth_kbps: 1000,
            pow_difficulty_bits: 20,
            dummy_traffic_interval_secs_min: 20,
            dummy_traffic_interval_secs_max: 40,
            static_relays: Vec::new(),
            bootstrap_url: None,
        }
    }
}

/// The number that a variable sets; the default where it is not set or is no
/// number up to `max`.
pub open spec fn number_or(variable: Option<String>, max: nat, default: nat) -> nat {
    match variable {
        Some(v) => match text::decimal(v@, max) {
            Some(n) => n,
            None => default,
        },
        None => default,
    }
}

/// The yes or no that a text says.
pub open spec fn flag(s: Seq<char>) -> Option<bool> {
    let word = text::small_text(text::trimmed(s));
    if word == "true"@ || word == "1"@ {
        Some(true)
    } else if word == "false"@ || word == "0"@ {
        Some(false)
    } else {
        None
    }
}

/// The yes or no that a text says.
fn parse_flag(s: &str) -> (result: Option<bool>)
    ensures
        result == flag(s@),
{
    let word = text::trim(s);
    if text::is_keyword(word, "true") || text::is_keyword(word, "1") {
        Some(true)
    } else if text::is_keyword(word, "false") || text::is_keyword(word, "0") {
        Some(false)
    } else {
        None
    }
}

/// The number that a variable sets, or the default.
fn parse_number(variable: &Option<String>, max: u64, default: u64) -> (result: u64)
    requires
        default <= max,
    ensures
        result == number_or(*variable, max as nat, default as nat),
        result <= max,
{
    match variable {
        Some(v) => match text::parse_decimal(v.as_str(), max) {
            Some(n) => n,
            None => default,
        },
        None => default,
    }
}

impl Config {
    /// The same configuration, with the database in an application's own
    /// directory.
    pub fn with_android_paths(self, app_files_dir: &str) -> (config: Self)
        ensures
            config == (Config { db_path: config.db_path, ..self }),
            config.db_path@ == app_files_dir@ + "/messenger.db"@,
    {
        let mut db_path: String = app_files_dir.to_owned();
        db_path.append("/messenger.db");
        Config {
            listen_port: self.listen_port,
            db_path,
            bootstrap_nodes: self.bootstrap_nodes,
            is_relay: self.is_relay,
            relay_max_bandwidth_kbps: self.relay_max_bandwidth_kbps,
            pow_difficulty_bits: self.pow_difficulty_bits,
            dummy_traffic_interval_secs_min: self.dummy_traffic_interval_secs_min,
            dummy_traffic_interval_secs_max: self.dummy_traffic_interval_secs_max,
            static_relays: self.static_relays,
            bootstrap_url: self.bootstrap_url,
        }
    }

    /// The configuration that variables make out of the default one. A
    /// variable that cannot be read leaves its default.
    pub fn from_env(vars: Variables) -> (config: Self)
        ensures
            config.listen_port == number_or(vars.listen_port, u16::MAX as nat, 0),
            config.db_path@ == (match vars.db_path {
                Some(v) => v@,
                None => "./messenger.db"@,
            }),
            text::texts(config.bootstrap_nodes@) == (match vars.bootstrap_nodes {
                Some(v) => text::items(v@),
                None => seq!["/ip4/127.0.0.1/tcp/4001"@],
            }),
            config.is_relay == (match vars.is_relay {
                Some(v) => flag(v@) == Some(true),
                None => false,
            }),
            config.relay_max_bandwidth_kbps == number_or(
                vars.relay_max_bandwidth_kbps,
                u32::MAX as nat,
                1000,
            ),
            config.pow_difficulty_bits == number_or(vars.pow_difficulty_bits, u32::MAX as nat, 20),
            config.dummy_traffic_interval_secs_min == 20,
            config.dummy_traffic_interval_secs_max == 40,
            match vars.static_relays {
                Some(relays) => config.static_relays == relays,
                None => config.static_relays@.len() == 0,
            },
            config.bootstrap_url == vars.bootstrap_url,
            config.is_relay <==> (vars.is_relay matches Some(v) && (text::small_text(
                text::trimmed(v@),
            ) == "true"@ || text::small_text(text::trimmed(v@)) == "1"@)),
            vars.listen_port matches Some(v) ==> v@.len() > 0 && text::all_digits(v@)
                && text::digits_value(v@) <= 65535 ==> config.listen_port == text::digits_value(v@),
            vars.pow_difficulty_bits matches Some(v) ==> v@.len() > 0 && text::all_digits(v@)
                && text::digits_value(v@) <= 0xffff_ffff ==> config.pow_difficulty_bits
                == text::digits_value(v@),
            vars.relay_max_bandwidth_kbps matches Some(v) ==> v@.len() > 0 && text::all_digits(v@)
                && text::digits_value(v@) <= 0xffff_ffff ==> config.relay_max_bandwidth_kbps
                == text::digits_value(v@),
            vars.listen_port is None ==> config.listen_port == 0,
            vars.pow_difficulty_bits is None ==> config.pow_difficulty_bits == 20,
            vars.relay_max_bandwidth_kbps is None ==> config.relay_max_bandwidth_kbps == 1000,
    {
        let mut config = Config::default();
        config.listen_port = parse_number(&vars.listen_port, u16::MAX as u64, 0) as u16;
        match vars.db_path {
            Some(v) => {
                config.db_path = v;
            },
            None => {},
        }
        match &vars.bootstrap_nodes {
            Some(v) => {
                config.bootstrap_nodes = text::comma_items(v.as_str());
            },
            None => {},
        }
        match &vars.is_relay {
            Some(v) => match parse_flag(v.as_str()) {
                Some(is_relay) => {
                    config.is_relay = is_relay;
                },
                None => {},
            },
            None => {},
        }
        config.relay_max_bandwidth_kbps = parse_number(
            &vars.relay_max_bandwidth_kbps,
            u32::MAX as u64,
            1000,
        ) as u32;
        config.pow_difficulty_bits = parse_number(
            &vars.pow_difficulty_bits,
            u32::MAX as u64,
            20,
        ) as u32;
        match vars.static_relays {
            Some(relays) => {
                config.static_relays = relays;
            },
            None => {},
        }
        config.bootstrap_url = vars.bootstrap_url;
        config
    }
}

} // verus!
