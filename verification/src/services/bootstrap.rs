//! Finding relays through a bootstrap server.
use vstd::prelude::*;

use crate::encoding;
use crate::network::p2p::NodeCommand;
use crate::network::relay::registry;
use crate::network::relay::registry::{RelayEntry, RelayRegistry};
use crate::text;

verus! {

/// A relay as a bootstrap server reports it.
#[derive(Debug)]
pub struct RelayInfo {
    /// The relay's name in the network.
    pub peer_id: String,
    /// Where to connect.
    pub multiaddr: String,
    /// The relay's onion key, in 64 hexadecimal digits.
    pub onion_public_key: String,
}

/// The parts of a reported relay, as far as they are there: its name, its
/// address and its onion key.
pub type Report = (Option<String>, Option<String>, Option<String>);

/// Why no relays were found.
#[derive(Debug, Clone, Copy, PartialEq, Eq, Structural)]
pub enum BootstrapError {
    /// The answer holds no list of relays.
    NoList,
    /// The server reports no relay, or none with all its parts.
    NoRelays,
    /// No relay that the server reports has a valid key.
    NoValidRelays,
}

/// Why the address of a bootstrap server was refused.
#[derive(Debug, Clone, Copy, PartialEq, Eq, Structural)]
pub enum UrlError {
    Empty,
    /// It begins neither with `http://` nor with `https://`.
    Scheme,
}

/// Whether a text ends at a place but for slashes.
pub open spec fn cut_at(s: Seq<char>, to: int) -> bool {
    &&& 0 <= to <= s.len()
    &&& forall|i: int| to <= i < s.len() ==> #[trigger] s[i] == '/'
    &&& to > 0 ==> s[to - 1] != '/'
}

/// Where a server reports its relays.
pub fn relays_url(bootstrap_url: &str) -> (url: String)
    ensures
        url@ == text::without_slashes(bootstrap_url@) + "/relays"@,
        exists|to: int| #[trigger]
            cut_at(bootstrap_url@, to) && url@ == bootstrap_url@.take(to) + "/relays"@,
{
    proof {
        let to = text::only_slashes_are_cut(bootstrap_url@);
        assert(cut_at(bootstrap_url@, to));
    }
    let mut url: String = text::trim_end_slashes(bootstrap_url).to_owned();
    url.append("/relays");
    url
}

/// Whether the address of a server is acceptable.
pub open spec fn url_verdict(url: Seq<char>) -> Result<Seq<char>, UrlError> {
    let plain = text::trimmed(url);
    if plain.len() == 0 {
        Err(UrlError::Empty)
    } else if !"http://"@.is_prefix_of(plain) && !"https://"@.is_prefix_of(plain) {
        Err(UrlError::Scheme)
    } else {
        Ok(plain)
    }
}

/// The address of a bootstrap server as it is kept: without white space
/// around it.
pub fn check_bootstrap_url(url: &str) -> (result: Result<String, UrlError>)
    ensures
        match url_verdict(url@) {
            Ok(plain) => result matches Ok(u) && u@ == plain,
            Err(e) => result == Err::<String, _>(e),
        },
{
    let plain = text::trim(url);
    if plain.is_empty() {
        return Err(UrlError::Empty);
    }
    if !text::starts_with(plain, "http://") && !text::starts_with(plain, "https://") {
        return Err(UrlError::Scheme);
    }
    Ok(plain.to_owned())
}

/// The relays among the first `count` of some loose reports that have all
/// their parts.
pub open spec fn complete(
    reports: Seq<Report>,
    count: nat,
) -> Seq<(String, String, String)>
    decreases count,
{
    if count == 0 {
        Seq::empty()
    } else {
        let before = complete(reports, (count - 1) as nat);
        match reports[count - 1] {
            (Some(id), Some(address), Some(key)) => before.push((id, address, key)),
            _ => before,
        }
    }
}

/// The parts of reported relays.
pub open spec fn parts(relays: Seq<RelayInfo>) -> Seq<(String, String, String)> {
    relays.map_values(|r: RelayInfo| (r.peer_id, r.multiaddr, r.onion_public_key))
}

/// Whether some relays are those at some places of loose reports, each with its
/// name, its address and its key, in their order, and none that has all its
/// parts is left out.
pub open spec fn listed_at(
    reports: Seq<Report>,
    relays: Seq<RelayInfo>,
    places: Seq<int>,
) -> bool {
    &&& relays.len() == places.len()
    &&& forall|k: int|
        0 <= k < places.len() ==> 0 <= #[trigger] places[k] < reports.len()
            && reports[places[k]] == (
            Some(relays[k].peer_id),
            Some(relays[k].multiaddr),
            Some(relays[k].onion_public_key),
        )
    &&& forall|k: int, l: int| 0 <= k < l < places.len() ==> places[k] < places[l]
    &&& forall|i: int|
        0 <= i < reports.len() ==> ((#[trigger] reports[i]).0 is Some && reports[i].1 is Some
            && reports[i].2 is Some ==> places.contains(i))
}

/// Whether a result holds the relays among loose reports, and is an error
/// where there is none.
pub open spec fn completed(
    reports: Seq<Report>,
    result: Result<Vec<RelayInfo>, BootstrapError>,
) -> bool {
    if complete(reports, reports.len()).len() == 0 {
        result == Err::<Vec<RelayInfo>, _>(BootstrapError::NoRelays)
    } else {
        result matches Ok(relays) && parts(relays@) == complete(reports, reports.len())
    }
}

/// The relays in a server's answer: in the list that it holds under its key,
/// or else in the bare list that it is.
pub fn relay_list(under_key: Option<Vec<Report>>, bare: Option<Vec<Report>>) -> (result: Result<
    Vec<RelayInfo>,
    BootstrapError,
>)
    ensures
        match (under_key, bare) {
            (Some(reports), _) => completed(reports@, result),
            (None, Some(reports)) => completed(reports@, result),
            (None, None) => result == Err::<Vec<RelayInfo>, _>(BootstrapError::NoList),
        },
{
    match (under_key, bare) {
        (Some(reports), _) => complete_reports(&reports),
        (None, Some(reports)) => complete_reports(&reports),
        (None, None) => Err(BootstrapError::NoList),
    }
}

/// The relays among loose reports: those that have all their parts.
pub fn complete_reports(reports: &Vec<Report>) -> (result: Result<Vec<RelayInfo>, BootstrapError>)
    ensures
        completed(reports@, result),
        result matches Ok(relays) ==> relays@.len() > 0 && exists|places: Seq<int>| #[trigger]
            listed_at(reports@, relays@, places),
        result is Err ==> forall|i: int|
            0 <= i < reports@.len() ==> !((#[trigger] reports@[i]).0 is Some && reports@[i].1 is Some
                && reports@[i].2 is Some),
{
    proof {
        let places = complete_relays_are_kept(reports@, reports@.len());
        assert(reports@.take(reports@.len() as int) =~= reports@);
        assert(complete_at(reports@, complete(reports@, reports@.len()), places));
        assert forall|relays: Seq<RelayInfo>| #[trigger]
            parts(relays) == complete(reports@, reports@.len()) implies listed_at(
            reports@,
            relays,
            places,
        ) by {
            assert(parts(relays).len() == relays.len());
            assert forall|k: int| 0 <= k < places.len() implies 0 <= #[trigger] places[k]
                < reports@.len() && reports@[places[k]] == (
                Some(relays[k].peer_id),
                Some(relays[k].multiaddr),
                Some(relays[k].onion_public_key),
            ) by {
                assert(parts(relays)[k] == (
                    relays[k].peer_id,
                    relays[k].multiaddr,
                    relays[k].onion_public_key,
                ));
            }
        }
        if complete(reports@, reports@.len()).len() == 0 {
            assert forall|i: int| 0 <= i < reports@.len() implies !((#[trigger] reports@[i]).0
                is Some && reports@[i].1 is Some && reports@[i].2 is Some) by {
                assert(!places.contains(i));
            }
        }
    }
    let mut relays: Vec<RelayInfo> = Vec::new();
    let mut i: usize = 0;
    while i < reports.len()
        invariant
            i <= reports@.len(),
            parts(relays@) =~= complete(reports@, i as nat),
        decreases reports@.len() - i,
    {
        let ghost before = relays@;
        match &reports[i] {
            (Some(id), Some(address), Some(key)) => {
                let relay = RelayInfo {
                    peer_id: id.clone(),
                    multiaddr: address.clone(),
                    onion_public_key: key.clone(),
                };
                relays.push(relay);
                assert(parts(relays@) =~= parts(before).push(
                    (relay.peer_id, relay.multiaddr, relay.onion_public_key),
                ));
            },
            _ => {},
        }
        i = i + 1;
    }
    assert(parts(relays@).len() == relays@.len());
    if relays.len() == 0 {
        Err(BootstrapError::NoRelays)
    } else {
        Ok(relays)
    }
}

/// The relays with a valid key among reported ones, as far as an entry is
/// determined by its parts.
pub open spec fn valid_relays(relays: Seq<RelayInfo>) -> Seq<(Seq<char>, Seq<char>, Seq<u8>)> {
    registry::valid_entries(parts(relays), relays.len())
}

/// Whether some entries are those of the reported relays at some places, in
/// their order, each with its name, its address and the key that its digits
/// write; and none with a key of 32 bytes is left out.
pub open spec fn reported_at(
    relays: Seq<RelayInfo>,
    entries: Seq<RelayEntry>,
    places: Seq<int>,
) -> bool {
    &&& entries.len() == places.len()
    &&& forall|k: int|
        0 <= k < places.len() ==> {
            &&& 0 <= #[trigger] places[k] < relays.len()
            &&& entries[k].relay_id@ == relays[places[k]].peer_id@
            &&& entries[k].address@ == relays[places[k]].multiaddr@
            &&& encoding::hex_value(relays[places[k]].onion_public_key@) == Some(
                entries[k].onion_public_key@,
            )
        }
    &&& forall|k: int, l: int| 0 <= k < l < places.len() ==> places[k] < places[l]
    &&& forall|i: int|
        0 <= i < relays.len() && (encoding::hex_value(
            (#[trigger] relays[i]).onion_public_key@,
        ) matches Some(key) && key.len() == 32) ==> places.contains(i)
}

/// The command that makes the reported relays known. Relays with an invalid
/// key are left out.
pub fn apply_relays(relays: &Vec<RelayInfo>) -> (result: Result<NodeCommand, BootstrapError>)
    ensures
        valid_relays(relays@).len() == 0 ==> result == Err::<NodeCommand, _>(
            BootstrapError::NoValidRelays,
        ),
        valid_relays(relays@).len() > 0 ==> (result matches Ok(
            NodeCommand::UpdateRelays { relays: entries },
        ) && registry::entry_parts(entries@) == valid_relays(relays@)),
        result matches Ok(NodeCommand::UpdateRelays { relays: entries }) ==> entries@.len() > 0
            && exists|places: Seq<int>| #[trigger] reported_at(relays@, entries@, places),
        result is Err ==> forall|i: int|
            0 <= i < relays@.len() ==> (encoding::hex_value(
                (#[trigger] relays@[i]).onion_public_key@,
            ) matches Some(key) ==> key.len() != 32),
        result is Ok ==> result->Ok_0 is UpdateRelays,
{
    let mut triples: Vec<(String, String, String)> = Vec::new();
    let mut i: usize = 0;
    while i < relays.len()
        invariant
            i <= relays@.len(),
            triples@ =~= parts(relays@).take(i as int),
        decreases relays@.len() - i,
    {
        let ghost before = triples@;
        triples.push(
            (
                relays[i].peer_id.clone(),
                relays[i].multiaddr.clone(),
                relays[i].onion_public_key.clone(),
            ),
        );
        assert(triples@ =~= before.push(parts(relays@)[i as int]));
        i = i + 1;
    }
    assert(parts(relays@).take(i as int) =~= parts(relays@));
    let entries: Vec<RelayEntry> = RelayRegistry::entries_from_hex(&triples);
    assert(registry::entry_parts(entries@).len() == entries@.len());
    proof {
        let places = choose|places: Seq<int>| #[trigger]
            registry::valid_at(triples@, registry::entry_parts(entries@), places);
        assert(registry::valid_at(triples@, registry::entry_parts(entries@), places));
        assert(triples@.len() == relays@.len());
        assert forall|i: int| 0 <= i < relays@.len() implies triples@[i] == (
            (#[trigger] relays@[i]).peer_id,
            relays@[i].multiaddr,
            relays@[i].onion_public_key,
        ) by {
            assert(parts(relays@)[i] == triples@[i]);
        }
        assert forall|k: int| 0 <= k < places.len() implies ({
            &&& 0 <= #[trigger] places[k] < relays@.len()
            &&& entries@[k].relay_id@ == relays@[places[k]].peer_id@
            &&& entries@[k].address@ == relays@[places[k]].multiaddr@
            &&& encoding::hex_value(relays@[places[k]].onion_public_key@) == Some(
                entries@[k].onion_public_key@,
            )
        }) by {
            assert(registry::entry_parts(entries@)[k] == (
                entries@[k].relay_id@,
                entries@[k].address@,
                entries@[k].onion_public_key@,
            ));
            assert(triples@[places[k]].0 == relays@[places[k]].peer_id);
        }
        assert forall|i: int|
            0 <= i < relays@.len() && (encoding::hex_value(
                (#[trigger] relays@[i]).onion_public_key@,
            ) matches Some(key) && key.len() == 32) implies places.contains(i) by {
            assert(triples@[i].2 == relays@[i].onion_public_key);
        }
        assert(reported_at(relays@, entries@, places));
    }
    if entries.len() == 0 {
        Err(BootstrapError::NoValidRelays)
    } else {
        Ok(NodeCommand::UpdateRelays { relays: entries })
    }
}

/// How often a command-line node asks a server.
pub const MAX_ATTEMPTS: u32 = 5;

/// How long a command-line node waits after a failed attempt; `None` after
/// the last one.
pub fn retry_delay(attempt: u32) -> (secs: Option<u64>)
    ensures
        secs == (if attempt < MAX_ATTEMPTS {
            Some((3 * attempt) as u64)
        } else {
            None
        }),
        attempt < 5 ==> secs == Some((3 * attempt) as u64),
        attempt >= 5 ==> secs is None,
{
    if attempt < MAX_ATTEMPTS {
        Some(3 * (attempt as u64))
    } else {
        None
    }
}

/// How often a desktop node asks a server.
pub const MAX_DESKTOP_ATTEMPTS: u32 = 8;

/// Three seconds, doubled after each failed attempt, up to two minutes.
pub open spec fn doubled_delay(attempt: nat) -> nat
    decreases attempt,
{
    if attempt <= 1 {
        3
    } else {
        let next = 2 * doubled_delay((attempt - 1) as nat);
        if next < 120 {
            next
        } else {
            120
        }
    }
}

/// How long a desktop node waits after a failed attempt; `None` after the
/// last one.
pub fn desktop_retry_delay(attempt: u32) -> (secs: Option<u64>)
    ensures
        secs == (if attempt < MAX_DESKTOP_ATTEMPTS {
            Some(doubled_delay(attempt as nat) as u64)
        } else {
            None
        }),
        attempt >= 8 ==> secs is None,
        attempt <= 1 ==> secs == Some(3u64),
        attempt == 2 ==> secs == Some(6u64),
        attempt == 3 ==> secs == Some(12u64),
        attempt == 4 ==> secs == Some(24u64),
        attempt == 5 ==> secs == Some(48u64),
        attempt == 6 ==> secs == Some(96u64),
        attempt == 7 ==> secs == Some(120u64),
{
    proof {
        reveal_with_fuel(doubled_delay, 8);
    }
    if attempt >= MAX_DESKTOP_ATTEMPTS {
        return None;
    }
    let mut delay: u64 = 3;
    let mut i: u32 = 1;
    while i < attempt
        invariant
            1 <= i,
            i <= attempt || i == 1,
            attempt < MAX_DESKTOP_ATTEMPTS,
            delay == doubled_delay(i as nat),
            delay <= 120,
        decreases attempt - i,
    {
        delay = if 2 * delay < 120 {
            2 * delay
        } else {
            120
        };
        i = i + 1;
    }
    Some(delay)
}

/// The port of a bootstrap server: the one that is set, if it is a port
/// number.
pub fn server_port(variable: &Option<String>) -> (port: u16)
    ensures
        port == crate::config::number_or(*variable, u16::MAX as nat, 8080),
{
    match variable {
        Some(v) => match text::parse_decimal(v.as_str(), u16::MAX as u64) {
            Some(n) => n as u16,
            None => 8080,
        },
        None => 8080,
    }
}

/// Whether some relays are those at some places of loose reports, in their
/// order, and none that has all its parts is left out.
pub open spec fn complete_at(
    reports: Seq<Report>,
    relays: Seq<(String, String, String)>,
    places: Seq<int>,
) -> bool {
    &&& relays.len() == places.len()
    &&& forall|k: int|
        0 <= k < places.len() ==> 0 <= #[trigger] places[k] < reports.len()
            && reports[places[k]] == (Some(relays[k].0), Some(relays[k].1), Some(relays[k].2))
    &&& forall|k: int, l: int| 0 <= k < l < places.len() ==> places[k] < places[l]
    &&& forall|i: int|
        0 <= i < reports.len() ==> ((#[trigger] reports[i]).0 is Some && reports[i].1 is Some
            && reports[i].2 is Some ==> places.contains(i))
}

/// The relays among loose reports are all those that have all their parts, in
/// the order in which they are reported.
pub proof fn complete_relays_are_kept(reports: Seq<Report>, count: nat) -> (places: Seq<int>)
    requires
        count <= reports.len(),
    ensures
        complete_at(reports.take(count as int), complete(reports, count), places),
    decreases count,
{
    if count == 0 {
        Seq::empty()
    } else {
        let last = count - 1;
        let fewer = reports.take(last);
        let all = reports.take(count as int);
        let before = complete_relays_are_kept(reports, last as nat);
        let relays = complete(reports, count);
        let whole = reports[last].0 is Some && reports[last].1 is Some && reports[last].2 is Some;
        let places = if whole {
            before.push(last)
        } else {
            before
        };
        assert forall|k: int| 0 <= k < places.len() implies 0 <= #[trigger] places[k] < all.len()
            && all[places[k]] == (Some(relays[k].0), Some(relays[k].1), Some(relays[k].2)) by {
            if k < before.len() {
                assert(0 <= before[k] < fewer.len());
                assert(fewer[before[k]] == all[before[k]]);
            }
        }
        assert forall|i: int|
            0 <= i < all.len() && (#[trigger] all[i]).0 is Some && all[i].1 is Some
                && all[i].2 is Some implies places.contains(i) by {
            if i < last {
                assert(fewer[i] == all[i]);
                let k = choose|k: int| 0 <= k < before.len() && before[k] == i;
                assert(places[k] == i);
            } else {
                assert(places[before.len() as int] == i);
            }
        }
        places
    }
}

/// The address of a server is accepted where it starts, behind white space,
/// with one of the two schemes, and then as it is without the white space
/// around it.
pub proof fn servers_are_reached_over_http(rest: Seq<char>)
    requires
        rest.len() > 0 ==> !text::white(rest.last()),
    ensures
        url_verdict("http://"@ + rest) == Ok::<Seq<char>, UrlError>("http://"@ + rest),
        url_verdict("https://"@ + rest) == Ok::<Seq<char>, UrlError>("https://"@ + rest),
{
    reveal_strlit("http://");
    reveal_strlit("https://");
    let plain = "http://"@ + rest;
    let secure = "https://"@ + rest;
    assert(plain[0] == 'h' && secure[0] == 'h');
    if rest.len() > 0 {
        assert(plain.last() == rest.last() && secure.last() == rest.last());
    } else {
        assert(plain.last() == '/' && secure.last() == '/');
    }
    text::bare_texts_stay(plain);
    text::bare_texts_stay(secure);
    assert("http://"@ =~= plain.subrange(0, "http://"@.len() as int));
    assert("https://"@ =~= secure.subrange(0, "https://"@.len() as int));
}

} // verus!
