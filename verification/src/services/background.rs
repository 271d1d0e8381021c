//! What the node does from time to time: dummy packets and requests for
//! messages.
use vstd::prelude::*;

use crate::crypto::suite;
use crate::network::p2p::NodeCommand;
use crate::types::RelayId;

verus! {

/// How long to wait before the first request for messages.
pub const FIRST_FETCH_DELAY_SECS: u64 = 5;

/// The relay that a random number picks.
pub fn pick_relay(relay_ids: &Vec<RelayId>, draw: u64) -> (relay: Option<RelayId>)
    ensures
        relay == (if relay_ids@.len() == 0 {
            None
        } else {
            Some(relay_ids@[draw as int % relay_ids@.len() as int])
        }),
{
    if relay_ids.len() == 0 {
        return None;
    }
    let index: usize = (draw % (relay_ids.len() as u64)) as usize;
    Some(relay_ids[index].clone())
}

/// The next dummy packet: to a random one of the known relays.
pub fn next_dummy(relay_ids: &Vec<RelayId>) -> (command: Option<NodeCommand>)
    ensures
        relay_ids@.len() == 0 ==> command is None,
        relay_ids@.len() > 0 ==> (command matches Some(NodeCommand::SendDummy { relay_id })
            && relay_ids@.contains(relay_id) && exists|draw: u64| #[trigger]
            suite::drawn_number(draw) && relay_id == relay_ids@[draw as int
            % relay_ids@.len() as int]),
{
    match pick_relay(relay_ids, suite::draw_number()) {
        Some(relay_id) => Some(NodeCommand::SendDummy { relay_id }),
        None => None,
    }
}

/// A request for messages to each relay.
pub open spec fn fetches(ids: Seq<RelayId>) -> Seq<NodeCommand> {
    ids.map_values(|id: RelayId| NodeCommand::FetchMailbox { relay_id: id })
}

/// A request for messages to each relay.
pub fn fetch_round(relay_ids: &Vec<RelayId>) -> (commands: Vec<NodeCommand>)
    ensures
        commands@ == fetches(relay_ids@),
        commands@.len() == relay_ids@.len(),
        forall|i: int|
            0 <= i < commands@.len() ==> #[trigger] commands@[i] == (NodeCommand::FetchMailbox {
                relay_id: relay_ids@[i],
            }),
{
    let mut commands: Vec<NodeCommand> = Vec::new();
    let mut i: usize = 0;
    while i < relay_ids.len()
        invariant
            i <= relay_ids@.len(),
            commands@ =~= fetches(relay_ids@.take(i as int)),
        decreases relay_ids@.len() - i,
    {
        commands.push(NodeCommand::FetchMailbox { relay_id: relay_ids[i].clone() });
        assert(relay_ids@.take(i + 1) =~= relay_ids@.take(i as int).push(relay_ids@[i as int]));
        i = i + 1;
    }
    assert(relay_ids@.take(i as int) =~= relay_ids@);
    commands
}

} // verus!
