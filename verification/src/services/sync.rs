//! What the node does first: fetch what waited while it was away, and
//! publish its records.
use vstd::prelude::*;

use crate::network::p2p::NodeCommand;
use crate::network::relay::registry;
use crate::network::relay::registry::RelayRegistry;
use crate::services::background;
use crate::types::RelayId;

verus! {

/// The first commands of a node that knows some relays.
pub open spec fn first_commands(ids: Seq<RelayId>) -> Seq<NodeCommand> {
    background::fetches(ids).push(NodeCommand::RepublishDht)
}

/// The first commands of a node that knows some relays.
pub fn startup_commands(relay_ids: &Vec<RelayId>) -> (commands: Vec<NodeCommand>)
    ensures
        commands@ == first_commands(relay_ids@),
        commands@.len() == relay_ids@.len() + 1,
        forall|i: int|
            0 <= i < relay_ids@.len() ==> #[trigger] commands@[i] == (NodeCommand::FetchMailbox {
                relay_id: relay_ids@[i],
            }),
        commands@.last() == NodeCommand::RepublishDht,
{
    let mut commands: Vec<NodeCommand> = background::fetch_round(relay_ids);
    commands.push(NodeCommand::RepublishDht);
    commands
}

/// The first commands of a node: ask every known relay for messages, then
/// publish the records. Without relays only the records are published.
pub fn sync_on_startup(known: &RelayRegistry) -> (commands: Vec<NodeCommand>)
    requires
        known.wf(),
    ensures
        exists|ids: Seq<RelayId>|
            {
                &&& commands@ == #[trigger] first_commands(ids)
                &&& registry::names(ids).no_duplicates()
                &&& forall|id: Seq<char>|
                    registry::names(ids).contains(id) <==> #[trigger] known@.dom().contains(id)
            },
{
    let relay_ids: Vec<RelayId> = known.relay_ids();
    startup_commands(&relay_ids)
}

} // verus!
