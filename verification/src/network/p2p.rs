//! The node: what it does on a command, on a packet, on an answer and on the
//! result of a lookup. The transport carries the actions out.
use vstd::prelude::*;

use crate::crypto::suite;
use crate::errors::MessengerError;
use crate::network::dht::record;
use crate::network::dht::record::{
    prekey_bundle_key_for_user, record_key_for_user, relay_descriptor_key_for_relay,
};
use crate::network::dispatcher;
use crate::network::dispatcher::{DispatchError, Handled, IncomingPlan};
use crate::network::mailbox::service;
use crate::network::mailbox::MailboxService;
use crate::network::onion;
use crate::network::onion::HopModel;
use crate::network::relay::registry;
use crate::network::relay::registry::{RelayEntry, RelayRegistry};
use crate::network::relay::scoring::RelayScoring;
use crate::network::{IncomingMessage, OutboundPacket};
use crate::protocol;
use crate::protocol::{
    DhtRecord, Packet, PacketModel, PacketType, PreKeyBundleRecord, RelayDescriptorRecord,
};
use crate::session::laws;
use crate::session::manager;
use crate::session::manager::{
    ManagerModel, PeerIdentitySource, PreKeyBundleSource, SessionManager,
};
use crate::storage::mailbox_store::MailboxStore;
use crate::storage::session_store;
use crate::storage::session_store::{SessionStore, StoreModel};
use crate::table::Table;
use crate::types::{DestinationModel, RelayId, UserId};
use crate::wire;
use vstd::utf8;

verus! {

/// What the application asks the node to do.
#[allow(inconsistent_fields)]
#[derive(Debug)]
pub enum NodeCommand {
    /// Send a text to a user.
    SendText { to: UserId, text: Vec<u8> },
    /// Ask a relay for the messages that wait for this node.
    FetchMailbox { relay_id: RelayId },
    /// Send a dummy packet to a relay.
    SendDummy { relay_id: RelayId },
    /// Publish this node's records again.
    RepublishDht,
    /// Replace the known relays.
    UpdateRelays { relays: Vec<RelayEntry> },
    /// Look a user up, under a number for the lookup.
    LookupUser { user_id: UserId, lookup: u64 },
}

/// What the transport is to do.
#[allow(inconsistent_fields)]
#[derive(Debug)]
pub enum NodeAction {
    /// Send a packet to a peer.
    Send(OutboundPacket),
    /// Connect to a relay.
    Dial { relay_id: RelayId, address: String },
    /// Remember a relay beyond this run.
    SaveRelay { relay_id: RelayId, address: String },
    /// Publish this node's own record under a key.
    PublishMyRecord { key: Vec<u8> },
    /// Publish this node's own prekeys under a key.
    PublishMyPreKeys { key: Vec<u8> },
    /// Look a key up, under a number for the lookup.
    GetRecord { lookup: u64, key: Vec<u8> },
}

/// An action as it is compared.
#[allow(inconsistent_fields)]
#[verifier::ext_equal]
pub enum ActionModel {
    Send { target: Seq<char>, packet: PacketModel },
    Dial { relay_id: Seq<char>, address: Seq<char> },
    SaveRelay { relay_id: Seq<char>, address: Seq<char> },
    PublishMyRecord { key: Seq<u8> },
    PublishMyPreKeys { key: Seq<u8> },
    GetRecord { lookup: u64, key: Seq<u8> },
}

impl View for NodeAction {
    type V = ActionModel;

    open spec fn view(&self) -> ActionModel {
        match self {
            NodeAction::Send(out) => ActionModel::Send {
                target: out.target_peer_id@,
                packet: out.packet@,
            },
            NodeAction::Dial { relay_id, address } => ActionModel::Dial {
                relay_id: relay_id@,
                address: address@,
            },
            NodeAction::SaveRelay { relay_id, address } => ActionModel::SaveRelay {
                relay_id: relay_id@,
                address: address@,
            },
            NodeAction::PublishMyRecord { key } => ActionModel::PublishMyRecord { key: key@ },
            NodeAction::PublishMyPreKeys { key } => ActionModel::PublishMyPreKeys { key: key@ },
            NodeAction::GetRecord { lookup, key } => ActionModel::GetRecord {
                lookup: *lookup,
                key: key@,
            },
        }
    }
}

/// The values of actions.
pub open spec fn action_models(actions: Seq<NodeAction>) -> Seq<ActionModel> {
    actions.map_values(|a: NodeAction| a@)
}

/// A record that somebody waits for.
#[derive(Debug)]
pub enum LookupRequest {
    UserRecord { user_id: UserId },
    PreKeyBundle { user_id: UserId },
    RelayDescriptor { relay_id: RelayId },
}

/// The key under which a record is looked up.
pub open spec fn lookup_key(request: LookupRequest) -> Seq<u8> {
    match request {
        LookupRequest::UserRecord { user_id } => record::user_key(user_id@),
        LookupRequest::PreKeyBundle { user_id } => record::prekey_key(user_id@),
        LookupRequest::RelayDescriptor { relay_id } => record::relay_key(relay_id@),
    }
}

/// How a lookup ended.
#[derive(Debug)]
pub enum LookupResult {
    FoundUser(DhtRecord),
    FoundPreKeys(PreKeyBundleRecord),
    FoundRelay(RelayDescriptorRecord),
    /// Something was found that is not a record of the expected type.
    Undecodable,
    /// Nothing was found.
    Failed,
}

/// What a packet that arrived leads to.
pub struct RequestOutcome {
    /// The answer to the peer.
    pub response: Packet,
    /// A packet to send on.
    pub outbound: Option<OutboundPacket>,
    /// A message for this node's user.
    pub incoming: Option<IncomingMessage>,
}

/// A running node.
pub struct NodeHandle<M> {
    pub session_manager: SessionManager,
    pub relay_scoring: RelayScoring,
    pub mailbox_service: MailboxService<M>,
    pub our_onion_secret: [u8; 32],
    pub relay_registry: RelayRegistry,
    /// The lookups that somebody waits for.
    pub pending_lookups: Table<u64, LookupRequest>,
    /// This node's own record, once it was published.
    pub my_dht_record: Option<DhtRecord>,
    /// This node's own prekeys, once they were published.
    pub my_prekey_bundle: Option<PreKeyBundleRecord>,
    /// The relays from which users fetch their messages.
    pub known_mailbox_candidates: Table<UserId, Vec<RelayId>>,
}

/// The request for this node's own messages.
pub open spec fn own_fetch_request(m: ManagerModel) -> PacketModel {
    dispatcher::fetch_request_model(
        m.me.name,
        suite::ed25519_sign(m.me.secret, dispatcher::fetch_claim(m.me.name)),
    )
}

/// Connecting to the first `count` relays and saving each.
pub open spec fn relay_setup(relays: Seq<RelayEntry>, count: nat) -> Seq<ActionModel>
    decreases count,
{
    if count == 0 {
        Seq::empty()
    } else {
        let relay = relays[count - 1];
        relay_setup(relays, (count - 1) as nat).push(
            ActionModel::Dial { relay_id: relay.relay_id@, address: relay.address@ },
        ).push(ActionModel::SaveRelay { relay_id: relay.relay_id@, address: relay.address@ })
    }
}

/// Asking each relay for this node's messages.
pub open spec fn relay_fetches(relays: Seq<RelayEntry>, request: PacketModel) -> Seq<ActionModel> {
    relays.map_values(
        |e: RelayEntry| ActionModel::Send { target: e.relay_id@, packet: request },
    )
}

/// Publishing what this node has published before.
pub open spec fn republishing(
    user: Option<DhtRecord>,
    prekeys: Option<PreKeyBundleRecord>,
) -> Seq<ActionModel> {
    let first = match user {
        Some(r) => seq![ActionModel::PublishMyRecord { key: record::user_key(r.user_id@) }],
        None => Seq::empty(),
    };
    let second = match prekeys {
        Some(r) => seq![ActionModel::PublishMyPreKeys { key: record::prekey_key(r.user_id@) }],
        None => Seq::empty(),
    };
    first + second
}

/// Whether `packet` is a dummy packet with a payload of 64 to 512 bytes.
pub open spec fn is_dummy(packet: PacketModel) -> bool {
    &&& 64 <= packet.encrypted_payload.len() <= 512
    &&& packet == PacketModel {
        padding_len: packet.encrypted_payload.len() as u32,
        ..protocol::plain_packet(PacketType::DummyTraffic, packet.encrypted_payload)
    }
}

/// The relays from which a user is known to fetch messages.
pub open spec fn mailbox_relays(
    known: Map<Seq<char>, Vec<RelayId>>,
    user: Seq<char>,
) -> Option<Seq<RelayId>> {
    if known.dom().contains(user) {
        Some(known[user]@)
    } else {
        None
    }
}

/// Whether the known relays were replaced, the new ones are connected to, and
/// each is asked for this node's messages.
pub open spec fn relays_updated<M>(
    relays: Seq<RelayEntry>,
    before: NodeHandle<M>,
    after: NodeHandle<M>,
    actions: Seq<NodeAction>,
) -> bool {
    &&& after == (NodeHandle { relay_registry: after.relay_registry, ..before })
    &&& after.relay_registry@ == registry::registered(relays, relays.len())
    &&& action_models(actions) == relay_setup(relays, relays.len()) + relay_fetches(
        relays,
        own_fetch_request(before.session_manager@),
    )
}

/// What a node makes of a command.
pub open spec fn command_outcome<M, B: PreKeyBundleSource, I: PeerIdentitySource>(
    command: NodeCommand,
    before: NodeHandle<M>,
    after: NodeHandle<M>,
    store_before: StoreModel,
    store_after: StoreModel,
    candidates: Seq<RelayId>,
    bundles: B,
    identities: I,
    result: Result<Vec<NodeAction>, MessengerError>,
) -> bool {
    &&& !(command is SendText) ==> store_after == store_before
    &&& match command {
        NodeCommand::SendText { to, text } => {
            &&& after == (NodeHandle { session_manager: after.session_manager, ..before })
            &&& exists|sent: Result<OutboundPacket, MessengerError>|
                {
                    &&& #[trigger] dispatcher::send_outcome(
                        before.session_manager@,
                        after.session_manager@,
                        store_before,
                        store_after,
                        dispatcher::route_choice(
                            before.relay_scoring@,
                            before.relay_registry,
                            mailbox_relays(before.known_mailbox_candidates@, to@),
                            candidates,
                        ),
                        to,
                        text@,
                        bundles,
                        identities,
                        sent,
                    )
                    &&& match sent {
                        Ok(outbound) => result matches Ok(actions) && actions@ == seq![
                            NodeAction::Send(outbound),
                        ],
                        Err(e) => result == Err::<Vec<NodeAction>, _>(e),
                    }
                }
        },
        NodeCommand::FetchMailbox { relay_id } => {
            &&& after == before
            &&& result matches Ok(actions)
            &&& action_models(actions@) == seq![
                ActionModel::Send {
                    target: relay_id@,
                    packet: own_fetch_request(before.session_manager@),
                },
            ]
        },
        NodeCommand::SendDummy { relay_id } => {
            &&& after == before
            &&& result matches Ok(actions)
            &&& actions@.len() == 1
            &&& actions@[0]@ matches ActionModel::Send { target, packet }
            &&& target == relay_id@
            &&& is_dummy(packet)
        },
        NodeCommand::RepublishDht => {
            &&& after == before
            &&& result matches Ok(actions)
            &&& action_models(actions@) == republishing(
                before.my_dht_record,
                before.my_prekey_bundle,
            )
        },
        NodeCommand::UpdateRelays { relays } => {
            &&& result matches Ok(actions)
            &&& relays_updated(relays@, before, after, actions@)
        },
        NodeCommand::LookupUser { user_id, lookup } => {
            &&& after == (NodeHandle { pending_lookups: after.pending_lookups, ..before })
            &&& after.pending_lookups@ == before.pending_lookups@.insert(
                lookup,
                LookupRequest::UserRecord { user_id },
            )
            &&& result matches Ok(actions)
            &&& action_models(actions@) == seq![
                ActionModel::GetRecord { lookup, key: record::user_key(user_id@) },
            ]
        },
    }
}

/// Connecting and saving take turns, relay after relay.
proof fn setup_takes_turns(relays: Seq<RelayEntry>, count: nat)
    requires
        count <= relays.len(),
    ensures
        relay_setup(relays, count).len() == 2 * count,
        forall|i: int|
            0 <= i < count ==> relay_setup(relays, count)[2 * i] == (ActionModel::Dial {
                relay_id: (#[trigger] relays[i]).relay_id@,
                address: relays[i].address@,
            }) && relay_setup(relays, count)[2 * i + 1] == (ActionModel::SaveRelay {
                relay_id: relays[i].relay_id@,
                address: relays[i].address@,
            }),
    decreases count,
{
    if count > 0 {
        setup_takes_turns(relays, (count - 1) as nat);
    }
}

/// Whether a packet asks a mailbox relay for a user's messages: it names the
/// user and bears the user's signature of that request.
pub open spec fn asks_for_mail(packet: PacketModel, m: ManagerModel) -> bool {
    &&& packet.protocol_version == 1
    &&& packet.kind == 4
    &&& packet.encrypted_payload.len() == 0
    &&& packet.recipient_user_id == m.me.name
    &&& packet.sender_signature == suite::ed25519_sign(
        m.me.secret,
        utf8::encode_utf8("MAILBOX_FETCH_V1:"@) + utf8::encode_utf8(m.me.name),
    )
}

/// Whether some actions publish a node's record and prekeys again, those that
/// there are, each under the key of its owner's name.
pub open spec fn published_again(
    user: Option<DhtRecord>,
    prekeys: Option<PreKeyBundleRecord>,
    actions: Seq<NodeAction>,
) -> bool {
    match (user, prekeys) {
        (None, None) => actions.len() == 0,
        (Some(r), None) => actions.len() == 1 && publishes_record(actions[0], r),
        (None, Some(p)) => actions.len() == 1 && publishes_prekeys(actions[0], p),
        (Some(r), Some(p)) => actions.len() == 2 && publishes_record(actions[0], r)
            && publishes_prekeys(actions[1], p),
    }
}

/// Whether an action publishes a node's record under the key of its owner.
pub open spec fn publishes_record(action: NodeAction, r: DhtRecord) -> bool {
    action matches NodeAction::PublishMyRecord { key } && key@ == suite::sha256(
        utf8::encode_utf8(r.user_id@),
    )
}

/// Whether an action publishes a node's prekeys under the key of their owner.
pub open spec fn publishes_prekeys(action: NodeAction, p: PreKeyBundleRecord) -> bool {
    action matches NodeAction::PublishMyPreKeys { key } && key@ == suite::sha256(
        utf8::encode_utf8("prekey:"@) + utf8::encode_utf8(p.user_id@),
    )
}

/// Whether some actions connect to each of some relays and save it, one after
/// the other, and then ask each for a user's messages.
pub open spec fn relays_set_up(
    relays: Seq<RelayEntry>,
    m: ManagerModel,
    actions: Seq<NodeAction>,
) -> bool {
    &&& actions.len() == 3 * relays.len()
    &&& forall|i: int|
        0 <= i < relays.len() ==> {
            &&& dials(actions[2 * i], #[trigger] relays[i])
            &&& saves(actions[2 * i + 1], relays[i])
            &&& asks(actions[2 * relays.len() + i], relays[i], m)
        }
}

/// Whether an action connects to a relay.
pub open spec fn dials(action: NodeAction, relay: RelayEntry) -> bool {
    action matches NodeAction::Dial { relay_id, address } && relay_id@ == relay.relay_id@
        && address@ == relay.address@
}

/// Whether an action saves a relay.
pub open spec fn saves(action: NodeAction, relay: RelayEntry) -> bool {
    action matches NodeAction::SaveRelay { relay_id, address } && relay_id@ == relay.relay_id@
        && address@ == relay.address@
}

/// Whether an action asks a relay for a user's messages.
pub open spec fn asks(action: NodeAction, relay: RelayEntry, m: ManagerModel) -> bool {
    action matches NodeAction::Send(out) && out.target_peer_id@ == relay.relay_id@
        && asks_for_mail(out.packet@, m)
}

/// Whether exactly some relays are known, of those with one id the last.
pub open spec fn relays_known(
    relays: Seq<RelayEntry>,
    known: Map<Seq<char>, RelayEntry>,
) -> bool {
    &&& forall|id: Seq<char>| #[trigger]
        known.dom().contains(id) ==> exists|i: int| #[trigger]
            registry::is_last_with_id(relays, i, id) && known[id] == relays[i]
    &&& forall|i: int|
        0 <= i < relays.len() ==> known.dom().contains((#[trigger] relays[i]).relay_id@)
}

/// Every command but that to send a text leads to what it asks for. A request
/// for messages goes to the relay that was named; a dummy is a packet of dummy
/// traffic; publishing again publishes what was published; new relays are
/// connected to, saved and asked for messages, each of them; and a user is
/// looked up under the user's own key.
pub proof fn commands_lead_to_what_they_ask<M, B: PreKeyBundleSource, I: PeerIdentitySource>(
    command: NodeCommand,
    before: NodeHandle<M>,
    after: NodeHandle<M>,
    store_before: StoreModel,
    store_after: StoreModel,
    candidates: Seq<RelayId>,
    bundles: B,
    identities: I,
    result: Result<Vec<NodeAction>, MessengerError>,
)
    requires
        command_outcome(
            command,
            before,
            after,
            store_before,
            store_after,
            candidates,
            bundles,
            identities,
            result,
        ),
    ensures
        !(command is SendText) ==> result is Ok,
        match command {
            NodeCommand::SendText { .. } => true,
            NodeCommand::FetchMailbox { relay_id } => result->Ok_0@.len() == 1 && (result->Ok_0@[0]
                matches NodeAction::Send(out) && out.target_peer_id@ == relay_id@ && asks_for_mail(
                out.packet@,
                before.session_manager@,
            )),
            NodeCommand::SendDummy { relay_id } => result->Ok_0@.len() == 1 && (result->Ok_0@[0]
                matches NodeAction::Send(out) && out.target_peer_id@ == relay_id@
                && out.packet@.kind == 7 && 64 <= out.packet@.encrypted_payload.len() <= 512
                && out.packet@.padding_len == out.packet@.encrypted_payload.len()),
            NodeCommand::RepublishDht => published_again(
                before.my_dht_record,
                before.my_prekey_bundle,
                result->Ok_0@,
            ),
            NodeCommand::UpdateRelays { relays } => {
                &&& relays_set_up(relays@, before.session_manager@, result->Ok_0@)
                &&& relays_known(relays@, after.relay_registry@)
            },
            NodeCommand::LookupUser { user_id, lookup } => {
                &&& result->Ok_0@.len() == 1
                &&& result->Ok_0@[0] matches NodeAction::GetRecord { lookup: number, key }
                &&& number == lookup
                &&& key@ == suite::sha256(utf8::encode_utf8(user_id@))
                &&& after.pending_lookups@.dom().contains(lookup)
                &&& after.pending_lookups@[lookup] == (LookupRequest::UserRecord { user_id })
            },
        },
{
    match command {
        NodeCommand::SendText { .. } => {},
        NodeCommand::FetchMailbox { relay_id } => {
            let actions = result->Ok_0@;
            assert(action_models(actions).len() == actions.len());
            assert(action_models(actions)[0] == actions[0]@);
        },
        NodeCommand::SendDummy { .. } => {},
        NodeCommand::RepublishDht => {
            let actions = result->Ok_0@;
            assert(action_models(actions).len() == actions.len());
            let models = republishing(before.my_dht_record, before.my_prekey_bundle);
            assert(action_models(actions) == models);
            if actions.len() > 0 {
                assert(actions[0]@ == models[0]);
            }
            if actions.len() > 1 {
                assert(actions[1]@ == models[1]);
            }
            assert(published_again(before.my_dht_record, before.my_prekey_bundle, actions));
        },
        NodeCommand::UpdateRelays { relays } => {
            let actions = result->Ok_0@;
            let models = action_models(actions);
            let request = own_fetch_request(before.session_manager@);
            let setup = relay_setup(relays@, relays@.len());
            setup_takes_turns(relays@, relays@.len());
            registry::later_entries_stay(relays@, relays@.len());
            assert(models.len() == actions.len());
            assert(models == setup + relay_fetches(relays@, request));
            assert forall|i: int| 0 <= i < relays@.len() implies dials(
                actions[2 * i],
                #[trigger] relays@[i],
            ) && saves(actions[2 * i + 1], relays@[i]) && asks(
                actions[2 * relays@.len() + i],
                relays@[i],
                before.session_manager@,
            ) by {
                assert(models[2 * i] == setup[2 * i]);
                assert(models[2 * i + 1] == setup[2 * i + 1]);
                assert(models[2 * relays@.len() + i] == relay_fetches(relays@, request)[i]);
                assert(actions[2 * i]@ == models[2 * i]);
                assert(actions[2 * i + 1]@ == models[2 * i + 1]);
                assert(actions[2 * relays@.len() + i]@ == models[2 * relays@.len() + i]);
            }
            assert(relays_set_up(relays@, before.session_manager@, actions));
            assert(relays_known(relays@, after.relay_registry@));
        },
        NodeCommand::LookupUser { .. } => {
            let actions = result->Ok_0@;
            assert(action_models(actions).len() == actions.len());
            assert(action_models(actions)[0] == actions[0]@);
        },
    }
}

/// Whether a packet goes to the first relay of a route of working relays that
/// ends at the mailbox of a user.
pub open spec fn takes_working_route<M>(
    node: NodeHandle<M>,
    to: Seq<char>,
    candidates: Seq<RelayId>,
    outbound: OutboundPacket,
) -> bool {
    &&& outbound.packet@.kind == 2
    &&& exists|hops: Seq<HopModel>, payload: Seq<u8>|
        {
            &&& #[trigger] dispatcher::route_works(
                node.relay_scoring@,
                node.relay_registry,
                mailbox_relays(node.known_mailbox_candidates@, to),
                candidates,
                hops,
            )
            &&& hops.len() >= 3
            &&& outbound.target_peer_id@ == hops[0].relay_id
            &&& #[trigger] onion::travels(
                outbound.packet.encrypted_payload@,
                hops,
                0,
                payload,
                DestinationModel::Mailbox(to),
            )
        }
}

/// How decrypting the messages in some payloads one after the other ends:
/// those that can be decrypted are handed over in order, the others are left
/// out.
pub open spec fn opened_in_turn<B: PreKeyBundleSource, I: PeerIdentitySource>(
    before: ManagerModel,
    after: ManagerModel,
    store_before: StoreModel,
    store_after: StoreModel,
    payloads: Seq<Seq<u8>>,
    bundles: B,
    identities: I,
    messages: Seq<IncomingMessage>,
) -> bool
    decreases payloads.len(),
{
    if payloads.len() == 0 {
        after == before && store_after == store_before && messages.len() == 0
    } else {
        exists|
            middle: ManagerModel,
            store_middle: StoreModel,
            opened: Result<(UserId, Vec<u8>), MessengerError>,
        |
            {
                &&& #[trigger] manager::message_outcome(
                    middle,
                    after,
                    store_middle,
                    store_after,
                    payloads.last(),
                    bundles,
                    identities,
                    opened,
                )
                &&& match opened {
                    Ok(m) => {
                        &&& messages.len() > 0
                        &&& messages.last().from == m.0
                        &&& messages.last().plaintext == m.1
                        &&& opened_in_turn(
                            before,
                            middle,
                            store_before,
                            store_middle,
                            payloads.drop_last(),
                            bundles,
                            identities,
                            messages.drop_last(),
                        )
                    },
                    Err(_) => opened_in_turn(
                        before,
                        middle,
                        store_before,
                        store_middle,
                        payloads.drop_last(),
                        bundles,
                        identities,
                        messages,
                    ),
                }
            }
    }
}

/// Whether the messages in some payloads were read one after the other, each
/// in the state that the one before it left, and those that could be read were
/// handed over in their order.
pub open spec fn read_one_by_one<B: PreKeyBundleSource, I: PeerIdentitySource>(
    payloads: Seq<Seq<u8>>,
    bundles: B,
    identities: I,
    messages: Seq<IncomingMessage>,
    states: Seq<ManagerModel>,
    stores: Seq<StoreModel>,
    results: Seq<Result<(UserId, Vec<u8>), MessengerError>>,
    places: Seq<int>,
) -> bool {
    &&& states.len() == payloads.len() + 1
    &&& stores.len() == payloads.len() + 1
    &&& results.len() == payloads.len()
    &&& forall|i: int|
        0 <= i < payloads.len() ==> #[trigger] manager::message_outcome(
            states[i],
            states[i + 1],
            stores[i],
            stores[i + 1],
            payloads[i],
            bundles,
            identities,
            results[i],
        )
    &&& places.len() == messages.len()
    &&& forall|k: int|
        0 <= k < places.len() ==> {
            &&& 0 <= #[trigger] places[k] < payloads.len()
            &&& results[places[k]] matches Ok(m)
            &&& messages[k].from == m.0
            &&& messages[k].plaintext == m.1
        }
    &&& forall|k: int, l: int| 0 <= k < l < places.len() ==> places[k] < places[l]
    &&& forall|i: int|
        0 <= i < results.len() ==> (#[trigger] results[i] is Ok ==> places.contains(i))
}

/// Whether each of some messages is the one in a payload of a batch, under the
/// name of that payload's own sender, and they are in the batch's order.
pub open spec fn each_under_its_sender<I: PeerIdentitySource>(
    payloads: Seq<Seq<u8>>,
    identities: I,
    messages: Seq<IncomingMessage>,
    places: Seq<int>,
) -> bool {
    &&& places.len() == messages.len()
    &&& forall|k: int|
        0 <= k < places.len() ==> {
            &&& 0 <= #[trigger] places[k] < payloads.len()
            &&& laws::heard(
                payloads[places[k]],
                identities,
                messages[k].from@,
                messages[k].plaintext@,
            )
        }
    &&& forall|k: int, l: int| 0 <= k < l < places.len() ==> places[k] < places[l]
}

/// How the payloads that were read in turn were tried: the states in between,
/// the results, and the places of those that could be read.
proof fn tried_in_turn<B: PreKeyBundleSource, I: PeerIdentitySource>(
    before: ManagerModel,
    after: ManagerModel,
    store_before: StoreModel,
    store_after: StoreModel,
    payloads: Seq<Seq<u8>>,
    bundles: B,
    identities: I,
    messages: Seq<IncomingMessage>,
) -> (trace: (
    Seq<ManagerModel>,
    Seq<StoreModel>,
    Seq<Result<(UserId, Vec<u8>), MessengerError>>,
    Seq<int>,
))
    requires
        opened_in_turn(
            before,
            after,
            store_before,
            store_after,
            payloads,
            bundles,
            identities,
            messages,
        ),
    ensures
        read_one_by_one(
            payloads,
            bundles,
            identities,
            messages,
            trace.0,
            trace.1,
            trace.2,
            trace.3,
        ),
        trace.0[0] == before,
        trace.0.last() == after,
        trace.1[0] == store_before,
        trace.1.last() == store_after,
    decreases payloads.len(),
{
    if payloads.len() == 0 {
        (seq![before], seq![store_before], Seq::empty(), Seq::empty())
    } else {
        let (middle, store_middle, opened) = choose|
            middle: ManagerModel,
            store_middle: StoreModel,
            opened: Result<(UserId, Vec<u8>), MessengerError>,
        |
            {
                &&& #[trigger] manager::message_outcome(
                    middle,
                    after,
                    store_middle,
                    store_after,
                    payloads.last(),
                    bundles,
                    identities,
                    opened,
                )
                &&& match opened {
                    Ok(m) => {
                        &&& messages.len() > 0
                        &&& messages.last().from == m.0
                        &&& messages.last().plaintext == m.1
                        &&& opened_in_turn(
                            before,
                            middle,
                            store_before,
                            store_middle,
                            payloads.drop_last(),
                            bundles,
                            identities,
                            messages.drop_last(),
                        )
                    },
                    Err(_) => opened_in_turn(
                        before,
                        middle,
                        store_before,
                        store_middle,
                        payloads.drop_last(),
                        bundles,
                        identities,
                        messages,
                    ),
                }
            };
        let rest = payloads.drop_last();
        let earlier = if opened is Ok {
            messages.drop_last()
        } else {
            messages
        };
        let (states, stores, results, places) = tried_in_turn(
            before,
            middle,
            store_before,
            store_middle,
            rest,
            bundles,
            identities,
            earlier,
        );
        one_more_is_tried(
            payloads,
            bundles,
            identities,
            messages,
            states,
            stores,
            results,
            places,
            after,
            store_after,
            opened,
        );
        (
            states.push(after),
            stores.push(store_after),
            results.push(opened),
            if opened is Ok {
                places.push(payloads.len() - 1)
            } else {
                places
            },
        )
    }
}

/// Trying one more payload after the others.
proof fn one_more_is_tried<B: PreKeyBundleSource, I: PeerIdentitySource>(
    payloads: Seq<Seq<u8>>,
    bundles: B,
    identities: I,
    messages: Seq<IncomingMessage>,
    states: Seq<ManagerModel>,
    stores: Seq<StoreModel>,
    results: Seq<Result<(UserId, Vec<u8>), MessengerError>>,
    places: Seq<int>,
    after: ManagerModel,
    store_after: StoreModel,
    opened: Result<(UserId, Vec<u8>), MessengerError>,
)
    requires
        payloads.len() > 0,
        read_one_by_one(
            payloads.drop_last(),
            bundles,
            identities,
            if opened is Ok {
                messages.drop_last()
            } else {
                messages
            },
            states,
            stores,
            results,
            places,
        ),
        manager::message_outcome(
            states.last(),
            after,
            stores.last(),
            store_after,
            payloads.last(),
            bundles,
            identities,
            opened,
        ),
        opened matches Ok(m) ==> messages.len() > 0 && messages.last().from == m.0
            && messages.last().plaintext == m.1,
    ensures
        read_one_by_one(
            payloads,
            bundles,
            identities,
            messages,
            states.push(after),
            stores.push(store_after),
            results.push(opened),
            if opened is Ok {
                places.push(payloads.len() - 1)
            } else {
                places
            },
        ),
{
    let rest = payloads.drop_last();
    let earlier = if opened is Ok {
        messages.drop_last()
    } else {
        messages
    };
    let last = payloads.len() - 1;
    let all_states = states.push(after);
    let all_stores = stores.push(store_after);
    let all_results = results.push(opened);
    let all_places = if opened is Ok {
        places.push(last)
    } else {
        places
    };
    assert forall|i: int| 0 <= i < payloads.len() implies #[trigger] manager::message_outcome(
        all_states[i],
        all_states[i + 1],
        all_stores[i],
        all_stores[i + 1],
        payloads[i],
        bundles,
        identities,
        all_results[i],
    ) by {
        if i < last {
            assert(manager::message_outcome(
                states[i],
                states[i + 1],
                stores[i],
                stores[i + 1],
                rest[i],
                bundles,
                identities,
                results[i],
            ));
        }
    }
    assert forall|k: int| 0 <= k < all_places.len() implies ({
        &&& 0 <= #[trigger] all_places[k] < payloads.len()
        &&& all_results[all_places[k]] matches Ok(m)
        &&& messages[k].from == m.0
        &&& messages[k].plaintext == m.1
    }) by {
        if k < places.len() {
            assert(0 <= places[k] < rest.len());
            assert(earlier[k] == messages[k]);
        }
    }
    assert forall|i: int|
        0 <= i < all_results.len() && #[trigger] all_results[i] is Ok implies all_places.contains(
        i,
    ) by {
        if i < last {
            assert(results[i] is Ok);
            let k = choose|k: int| 0 <= k < places.len() && places[k] == i;
            assert(all_places[k] == i);
        } else {
            assert(all_places[places.len() as int] == i);
        }
    }
}

/// Messages that were read in turn were read one by one: every payload was
/// tried in the state that the one before it left, nothing that could be read
/// is missing, and each message is handed over under its own sender's name.
pub proof fn batches_are_read_one_by_one<B: PreKeyBundleSource, I: PeerIdentitySource>(
    before: ManagerModel,
    after: ManagerModel,
    store_before: StoreModel,
    store_after: StoreModel,
    payloads: Seq<Seq<u8>>,
    bundles: B,
    identities: I,
    messages: Seq<IncomingMessage>,
)
    requires
        opened_in_turn(
            before,
            after,
            store_before,
            store_after,
            payloads,
            bundles,
            identities,
            messages,
        ),
    ensures
        exists|
            states: Seq<ManagerModel>,
            stores: Seq<StoreModel>,
            results: Seq<Result<(UserId, Vec<u8>), MessengerError>>,
            places: Seq<int>,
        |
            {
                &&& #[trigger] read_one_by_one(
                    payloads,
                    bundles,
                    identities,
                    messages,
                    states,
                    stores,
                    results,
                    places,
                )
                &&& states[0] == before
                &&& states.last() == after
                &&& stores[0] == store_before
                &&& stores.last() == store_after
            },
        exists|places: Seq<int>| #[trigger]
            each_under_its_sender(payloads, identities, messages, places),
{
    let (states, stores, results, places) = tried_in_turn(
        before,
        after,
        store_before,
        store_after,
        payloads,
        bundles,
        identities,
        messages,
    );
    assert forall|k: int| 0 <= k < places.len() implies ({
        &&& 0 <= #[trigger] places[k] < payloads.len()
        &&& laws::heard(
            payloads[places[k]],
            identities,
            messages[k].from@,
            messages[k].plaintext@,
        )
    }) by {
        let i = places[k];
        assert(manager::message_outcome(
            states[i],
            states[i + 1],
            stores[i],
            stores[i + 1],
            payloads[i],
            bundles,
            identities,
            results[i],
        ));
        laws::messages_name_their_senders(
            states[i],
            states[i + 1],
            stores[i],
            stores[i + 1],
            payloads[i],
            bundles,
            identities,
            results[i],
        );
    }
    assert(each_under_its_sender(payloads, identities, messages, places));
}

/// Whether a packet was answered as its handling says: with what the
/// handling gives, or with an acknowledgement where it gives nothing or
/// fails.
pub open spec fn answered(
    outcome: RequestOutcome,
    handled: Result<Handled, DispatchError>,
) -> bool {
    match handled {
        Ok(h) => {
            &&& outcome.outbound == h.outbound
            &&& outcome.incoming == h.incoming
            &&& match h.response {
                Some(r) => outcome.response == r,
                None => outcome.response@ == protocol::plain_packet(
                    PacketType::Unknown,
                    Seq::empty(),
                ),
            }
        },
        Err(_) => {
            &&& outcome.outbound is None
            &&& outcome.incoming is None
            &&& outcome.response@ == protocol::plain_packet(PacketType::Unknown, Seq::empty())
        },
    }
}

impl<M: MailboxStore> NodeHandle<M> {
    /// The parts of the node are in order.
    pub open spec fn wf(&self) -> bool {
        &&& self.session_manager.wf()
        &&& self.relay_scoring.wf()
        &&& self.mailbox_service.valid()
        &&& self.relay_registry.wf()
        &&& self.pending_lookups.wf()
        &&& self.known_mailbox_candidates.wf()
    }

    /// A node that knows no relay and waits for nothing.
    pub fn start(
        session_manager: SessionManager,
        mailbox_service: MailboxService<M>,
        our_onion_secret: [u8; 32],
        relay_registry: RelayRegistry,
    ) -> (node: Self)
        requires
            session_manager.wf(),
            mailbox_service.valid(),
            relay_registry.wf(),
        ensures
            node.wf(),
            node.session_manager == session_manager,
            node.mailbox_service == mailbox_service,
            node.our_onion_secret == our_onion_secret,
            node.relay_registry == relay_registry,
            node.relay_scoring@ == Map::<Seq<char>, u32>::empty(),
            node.pending_lookups@ == Map::<u64, LookupRequest>::empty(),
            node.my_dht_record is None,
            node.my_prekey_bundle is None,
            node.known_mailbox_candidates@ == Map::<Seq<char>, Vec<RelayId>>::empty(),
    {
        NodeHandle {
            session_manager,
            relay_scoring: RelayScoring::new(),
            mailbox_service,
            our_onion_secret,
            relay_registry,
            pending_lookups: Table::new(),
            my_dht_record: None,
            my_prekey_bundle: None,
            known_mailbox_candidates: Table::new(),
        }
    }

    /// Keeps this node's own record, if the table took it.
    pub fn publish_my_record(&mut self, record: DhtRecord, taken: bool)
        ensures
            *final(self) == (if taken {
                NodeHandle { my_dht_record: Some(record), ..*old(self) }
            } else {
                *old(self)
            }),
    {
        if taken {
            self.my_dht_record = Some(record);
        }
    }

    /// Keeps this node's own prekeys, if the table took them.
    pub fn publish_my_prekey_bundle(&mut self, record: PreKeyBundleRecord, taken: bool)
        ensures
            *final(self) == (if taken {
                NodeHandle { my_prekey_bundle: Some(record), ..*old(self) }
            } else {
                *old(self)
            }),
    {
        if taken {
            self.my_prekey_bundle = Some(record);
        }
    }

    /// Starts a lookup under a number.
    pub fn handle_lookup_request(&mut self, lookup: u64, request: LookupRequest) -> (action:
        NodeAction)
        requires
            old(self).wf(),
        ensures
            final(self).wf(),
            *final(self) == (NodeHandle {
                pending_lookups: final(self).pending_lookups,
                ..*old(self)
            }),
            final(self).pending_lookups@ == old(self).pending_lookups@.insert(lookup, request),
            action@ == (ActionModel::GetRecord { lookup, key: lookup_key(request) }),
            final(self).pending_lookups@.dom().contains(lookup),
            final(self).pending_lookups@[lookup] == request,
            action matches NodeAction::GetRecord { lookup: number, key } && number == lookup && key@
                == suite::sha256(
                match request {
                    LookupRequest::UserRecord { user_id } => utf8::encode_utf8(user_id@),
                    LookupRequest::PreKeyBundle { user_id } => utf8::encode_utf8("prekey:"@)
                        + utf8::encode_utf8(user_id@),
                    LookupRequest::RelayDescriptor { relay_id } => utf8::encode_utf8("relay:"@)
                        + utf8::encode_utf8(relay_id@),
                },
            ),
    {
        let key: Vec<u8> = match &request {
            LookupRequest::UserRecord { user_id } => record_key_for_user(user_id),
            LookupRequest::PreKeyBundle { user_id } => prekey_bundle_key_for_user(user_id),
            LookupRequest::RelayDescriptor { relay_id } => relay_descriptor_key_for_relay(relay_id),
        };
        self.pending_lookups.insert(lookup, request);
        NodeAction::GetRecord { lookup, key }
    }

    /// The request for this node's messages, to a relay.
    fn fetch_action(&self, relay_id: RelayId) -> (action: NodeAction)
        ensures
            action@ == (ActionModel::Send {
                target: relay_id@,
                packet: own_fetch_request(self.session_manager@),
            }),
    {
        let packet = dispatcher::fetch_mailbox(&self.session_manager);
        NodeAction::Send(OutboundPacket { target_peer_id: relay_id, packet })
    }

    /// Replaces the known relays, connects to the new ones and asks them for
    /// this node's messages.
    fn update_relays(&mut self, relays: Vec<RelayEntry>) -> (actions: Vec<NodeAction>)
        requires
            old(self).wf(),
        ensures
            final(self).wf(),
            relays_updated(relays@, *old(self), *final(self), actions@),
    {
        self.relay_registry.update(&relays);
        let mut actions: Vec<NodeAction> = Vec::new();
        let mut i: usize = 0;
        while i < relays.len()
            invariant
                i <= relays@.len(),
                action_models(actions@) =~= relay_setup(relays@, i as nat),
            decreases relays@.len() - i,
        {
            let ghost done = actions@;
            let dial = NodeAction::Dial {
                relay_id: relays[i].relay_id.clone(),
                address: relays[i].address.clone(),
            };
            let save = NodeAction::SaveRelay {
                relay_id: relays[i].relay_id.clone(),
                address: relays[i].address.clone(),
            };
            actions.push(dial);
            actions.push(save);
            assert(action_models(actions@) =~= action_models(done).push(dial@).push(save@));
            i = i + 1;
        }
        let ghost request = own_fetch_request(self.session_manager@);
        let ghost setup = relay_setup(relays@, relays@.len());
        let mut j: usize = 0;
        while j < relays.len()
            invariant
                j <= relays@.len(),
                request == own_fetch_request(self.session_manager@),
                action_models(actions@) =~= setup + relay_fetches(relays@, request).take(j as int),
            decreases relays@.len() - j,
        {
            let ghost done = actions@;
            let fetch = self.fetch_action(relays[j].relay_id.clone());
            actions.push(fetch);
            proof {
                assert(action_models(actions@) =~= action_models(done).push(fetch@));
                assert(relay_fetches(relays@, request).take(j + 1) =~= relay_fetches(
                    relays@,
                    request,
                ).take(j as int).push(fetch@));
            }
            j = j + 1;
        }
        assert(relay_fetches(relays@, request).take(j as int) =~= relay_fetches(relays@, request));
        actions
    }

    /// Publishes again what was published before.
    fn republish(&self) -> (actions: Vec<NodeAction>)
        ensures
            action_models(actions@) == republishing(self.my_dht_record, self.my_prekey_bundle),
    {
        let mut actions: Vec<NodeAction> = Vec::new();
        match &self.my_dht_record {
            Some(record) => {
                actions.push(
                    NodeAction::PublishMyRecord { key: record_key_for_user(&record.user_id) },
                );
            },
            None => {},
        }
        match &self.my_prekey_bundle {
            Some(record) => {
                actions.push(
                    NodeAction::PublishMyPreKeys {
                        key: prekey_bundle_key_for_user(&record.user_id),
                    },
                );
            },
            None => {},
        }
        assert(action_models(actions@) =~= republishing(self.my_dht_record, self.my_prekey_bundle));
        actions
    }

    /// Encrypts a text for a user and wraps it into a packet for the first relay
    /// of a route.
    fn send_text<S: SessionStore, B: PreKeyBundleSource, I: PeerIdentitySource>(
        &mut self,
        to: &UserId,
        text: &Vec<u8>,
        candidates: &Vec<RelayId>,
        store: &mut S,
        bundles: &B,
        identities: &I,
    ) -> (sent: Result<OutboundPacket, MessengerError>)
        requires
            old(self).wf(),
        ensures
            final(self).wf(),
            *final(self) == (NodeHandle {
                session_manager: final(self).session_manager,
                ..*old(self)
            }),
            dispatcher::send_outcome(
                old(self).session_manager@,
                final(self).session_manager@,
                session_store::store_model(*old(store)),
                session_store::store_model(*final(store)),
                dispatcher::route_choice(
                    old(self).relay_scoring@,
                    old(self).relay_registry,
                    mailbox_relays(old(self).known_mailbox_candidates@, to@),
                    candidates@,
                ),
                *to,
                text@,
                *bundles,
                *identities,
                sent,
            ),
            sent matches Ok(outbound) ==> takes_working_route(
                *old(self),
                to@,
                candidates@,
                outbound,
            ),
    {
        dispatcher::send_message(
            &mut self.session_manager,
            &self.relay_scoring,
            &self.relay_registry,
            self.known_mailbox_candidates.get(to),
            candidates,
            to,
            text.as_slice(),
            store,
            bundles,
            identities,
        )
    }

    /// Carries out a command. `candidates` are the known relays, the best
    /// ones first.
    pub fn handle_command<S: SessionStore, B: PreKeyBundleSource, I: PeerIdentitySource>(
        &mut self,
        command: NodeCommand,
        candidates: &Vec<RelayId>,
        store: &mut S,
        bundles: &B,
        identities: &I,
    ) -> (result: Result<Vec<NodeAction>, MessengerError>)
        requires
            old(self).wf(),
        ensures
            final(self).wf(),
            command_outcome(
                command,
                *old(self),
                *final(self),
                session_store::store_model(*old(store)),
                session_store::store_model(*final(store)),
                candidates@,
                *bundles,
                *identities,
                result,
            ),
            command matches NodeCommand::SendText { to, .. } ==> (result matches Ok(actions)
                ==> actions@.len() == 1 && (actions@[0] matches NodeAction::Send(outbound)
                && takes_working_route(*old(self), to@, candidates@, outbound))),
    {
        match command {
            NodeCommand::SendText { to, text } => {
                let sent = self.send_text(&to, &text, candidates, store, bundles, identities);
                match sent {
                    Ok(outbound) => {
                        let actions = vec![NodeAction::Send(outbound)];
                        assert(actions@ =~= seq![NodeAction::Send(outbound)]);
                        Ok(actions)
                    },
                    Err(e) => Err(e),
                }
            },
            NodeCommand::FetchMailbox { relay_id } => {
                let action = self.fetch_action(relay_id);
                let actions = vec![action];
                assert(action_models(actions@) =~= seq![action@]);
                Ok(actions)
            },
            NodeCommand::SendDummy { relay_id } => {
                let packet = dispatcher::send_dummy_packet();
                Ok(
                    vec![
                        NodeAction::Send(OutboundPacket { target_peer_id: relay_id, packet }),
                    ],
                )
            },
            NodeCommand::RepublishDht => Ok(self.republish()),
            NodeCommand::UpdateRelays { relays } => Ok(self.update_relays(relays)),
            NodeCommand::LookupUser { user_id, lookup } => {
                let action = self.handle_lookup_request(
                    lookup,
                    LookupRequest::UserRecord { user_id },
                );
                let actions = vec![action];
                assert(action_models(actions@) =~= seq![action@]);
                Ok(actions)
            },
        }
    }

    /// Handles a packet from a peer, who gets an answer in any case.
    pub fn handle_request<S: SessionStore, B: PreKeyBundleSource, I: PeerIdentitySource>(
        &mut self,
        request: &Packet,
        store: &mut S,
        bundles: &B,
        identities: &I,
    ) -> (outcome: RequestOutcome)
        requires
            old(self).wf(),
        ensures
            final(self).wf(),
            *final(self) == (NodeHandle {
                session_manager: final(self).session_manager,
                mailbox_service: final(self).mailbox_service,
                ..*old(self)
            }),
            exists|plan: IncomingPlan, handled: Result<Handled, DispatchError>|
                {
                    &&& #[trigger] dispatcher::plan_fits(
                        plan,
                        request@,
                        old(self).our_onion_secret@,
                    )
                    &&& dispatcher::carried_out(
                        plan,
                        *request,
                        old(self).session_manager,
                        final(self).session_manager,
                        session_store::store_model(*old(store)),
                        session_store::store_model(*final(store)),
                        old(self).mailbox_service.store,
                        final(self).mailbox_service.store,
                        *bundles,
                        *identities,
                        handled,
                    )
                    &&& #[trigger] answered(outcome, handled)
                },
            forall|other: Seq<char>|
                other != request.recipient_user_id@
                    ==> #[trigger] final(self).mailbox_service.handed_to(other)
                    == old(self).mailbox_service.handed_to(other),
            outcome.incoming matches Some(message) ==> request.kind == 1 && laws::heard(
                request.encrypted_payload@,
                *identities,
                message.from@,
                message.plaintext@,
            ),
            outcome.response@.kind == 4 ==> exists|key: [u8; 32]|
                #[trigger] identities.vouches(request.recipient_user_id@, key@)
                    && dispatcher::signed_claim(request@, key@),
            dispatcher::is_layered(request@) ==> (onion::peeled(
                request.encrypted_payload@,
                old(self).our_onion_secret@,
            ) matches Ok(wire::ContentModel::Forward { next_hop, inner }) ==> (
            outcome.outbound matches Some(outbound) && outbound.target_peer_id@ == next_hop
                && outbound.packet@.encrypted_payload == inner && outbound.packet@.kind == 2)),
            dispatcher::is_layered(request@) ==> (onion::peeled(
                request.encrypted_payload@,
                old(self).our_onion_secret@,
            ) matches Ok(
                wire::ContentModel::Exit { payload, destination: DestinationModel::Mailbox(user) },
            ) ==> {
                let before = old(self).mailbox_service.store;
                let after = final(self).mailbox_service.store;
                ||| dispatcher::put_into(before.mail(), after.mail(), user, payload)
                ||| after.mail() == before.mail() && !(before.dependable() && before.room() > 0
                    && service::pending(before.mail(), user).len() < 1000)
            }),
            request.kind == 4 && request.recipient_user_id@.len() > 0 && identities.knows(
                request.recipient_user_id@,
            ) && old(self).mailbox_service.store.dependable() && (forall|key: [u8; 32]| #[trigger]
                identities.vouches(request.recipient_user_id@, key@) ==> dispatcher::signed_claim(
                    request@,
                    key@,
                )) ==> dispatcher::hands_over(
                old(self).mailbox_service.store.mail(),
                request.recipient_user_id@,
                outcome.response@,
            ),
            forall|text: Seq<u8>|
                request.kind == 1 && onion::peeled(
                    request.encrypted_payload@,
                    old(self).our_onion_secret@,
                ) is Err && old(store).dependable() && #[trigger] laws::arrives(
                    old(self).session_manager@,
                    session_store::store_model(*old(store)),
                    request.encrypted_payload@,
                    *bundles,
                    *identities,
                    text,
                ) ==> outcome.incoming is Some && outcome.incoming->Some_0.from@
                    == wire::parse_envelope(request.encrypted_payload@)->Some_0.sender_id
                    && outcome.incoming->Some_0.plaintext@ == text,
    {
        let handled = dispatcher::handle_incoming_packet(
            request,
            &mut self.session_manager,
            &self.our_onion_secret,
            &mut self.mailbox_service,
            store,
            bundles,
            identities,
        );
        let ghost decided = handled;
        let outcome = match handled {
            Ok(h) => RequestOutcome {
                response: match h.response {
                    Some(response) => response,
                    None => Packet::ack(),
                },
                outbound: h.outbound,
                incoming: h.incoming,
            },
            Err(_) => RequestOutcome { response: Packet::ack(), outbound: None, incoming: None },
        };
        assert(answered(outcome, decided));
        outcome
    }

    /// Handles the answer to a packet: decrypts the messages that waited in a
    /// mailbox. Other answers carry nothing.
    pub fn handle_response<S: SessionStore, B: PreKeyBundleSource, I: PeerIdentitySource>(
        &mut self,
        response: &Packet,
        store: &mut S,
        bundles: &B,
        identities: &I,
    ) -> (messages: Vec<IncomingMessage>)
        requires
            old(self).wf(),
        ensures
            final(self).wf(),
            *final(self) == (NodeHandle {
                session_manager: final(self).session_manager,
                ..*old(self)
            }),
            match wire::parse_batch(response.encrypted_payload@) {
                Some(payloads) if response.kind == PacketType::MailboxFetch.number() => {
                    opened_in_turn(
                        old(self).session_manager@,
                        final(self).session_manager@,
                        session_store::store_model(*old(store)),
                        session_store::store_model(*final(store)),
                        payloads,
                        *bundles,
                        *identities,
                        messages@,
                    )
                },
                _ => {
                    &&& *final(self) == *old(self)
                    &&& *final(store) == *old(store)
                    &&& messages@.len() == 0
                },
            },
            messages@.len() > 0 ==> response.kind == PacketType::MailboxFetch.number() && (
            wire::parse_batch(response.encrypted_payload@) matches Some(payloads) && exists|
                places: Seq<int>,
            | #[trigger]
                each_under_its_sender(payloads, *identities, messages@, places)),
    {
        let mut messages: Vec<IncomingMessage> = Vec::new();
        let packets = match dispatcher::mailbox_messages(response) {
            Some(packets) => packets,
            None => {
                return messages;
            },
        };
        let ghost payloads = wire::parse_batch(response.encrypted_payload@)->Some_0;
        let ghost start = *self;
        let ghost store_start = session_store::store_model(*store);
        let mut i: usize = 0;
        assert(dispatcher::packet_models(packets@).len() == dispatcher::direct_packets(
            payloads,
        ).len());
        assert(payloads.take(0) =~= Seq::empty());
        while i < packets.len()
            invariant
                i <= packets@.len(),
                packets@.len() == payloads.len(),
                dispatcher::packet_models(packets@) == dispatcher::direct_packets(payloads),
                self.wf(),
                *self == (NodeHandle { session_manager: self.session_manager, ..start }),
                opened_in_turn(
                    start.session_manager@,
                    self.session_manager@,
                    store_start,
                    session_store::store_model(*store),
                    payloads.take(i as int),
                    *bundles,
                    *identities,
                    messages@,
                ),
            decreases packets@.len() - i,
        {
            let ghost before = self.session_manager@;
            let ghost store_before = session_store::store_model(*store);
            let ghost handed = messages@;
            let opened = self.session_manager.decrypt_message(
                &packets[i],
                store,
                bundles,
                identities,
            );
            proof {
                assert(dispatcher::packet_models(packets@)[i as int]
                    == dispatcher::direct_packets(payloads)[i as int]);
                assert(payloads.take(i + 1).last() == payloads[i as int]);
                assert(payloads.take(i + 1).drop_last() =~= payloads.take(i as int));
                assert(manager::message_outcome(
                    before,
                    self.session_manager@,
                    store_before,
                    session_store::store_model(*store),
                    payloads.take(i + 1).last(),
                    *bundles,
                    *identities,
                    opened,
                ));
            }
            match opened {
                Ok((from, plaintext)) => {
                    messages.push(IncomingMessage { from, plaintext });
                    assert(messages@.drop_last() =~= handed);
                },
                Err(_) => {},
            }
            i = i + 1;
        }
        assert(payloads.take(i as int) =~= payloads);
        proof {
            batches_are_read_one_by_one(
                start.session_manager@,
                self.session_manager@,
                store_start,
                session_store::store_model(*store),
                payloads,
                *bundles,
                *identities,
                messages@,
            );
        }
        messages
    }

    /// What a lookup under a number waits for.
    pub fn pending_lookup(&self, lookup: u64) -> (request: Option<&LookupRequest>)
        requires
            self.wf(),
        ensures
            match request {
                Some(r) => self.pending_lookups@.dom().contains(lookup) && *r
                    == self.pending_lookups@[lookup],
                None => !self.pending_lookups@.dom().contains(lookup),
            },
    {
        self.pending_lookups.get(&lookup)
    }

    /// Ends a lookup: gives back what it waited for, once. A user's mailbox
    /// relays are kept where a user's record names any.
    pub fn handle_kademlia_event(&mut self, lookup: u64, found: &LookupResult) -> (request: Option<
        LookupRequest,
    >)
        requires
            old(self).wf(),
        ensures
            final(self).wf(),
            *final(self) == (NodeHandle {
                pending_lookups: final(self).pending_lookups,
                known_mailbox_candidates: final(self).known_mailbox_candidates,
                ..*old(self)
            }),
            match request {
                Some(r) => {
                    &&& old(self).pending_lookups@.dom().contains(lookup)
                    &&& r == old(self).pending_lookups@[lookup]
                    &&& final(self).pending_lookups@ == old(self).pending_lookups@.remove(lookup)
                    &&& relays_learned(
                        r,
                        *found,
                        old(self).known_mailbox_candidates@,
                        final(self).known_mailbox_candidates@,
                    )
                },
                None => !old(self).pending_lookups@.dom().contains(lookup) && *final(self) == *old(
                    self,
                ),
            },
            !final(self).pending_lookups@.dom().contains(lookup),
            request matches Some(LookupRequest::UserRecord { .. }) && (*found matches LookupResult::FoundUser(record)
                && record.mailbox_candidates@.len() > 0) ==> {
                let record = (*found)->FoundUser_0;
                &&& final(self).known_mailbox_candidates@.dom().contains(record.user_id@)
                &&& final(self).known_mailbox_candidates@[record.user_id@]@
                    == record.mailbox_candidates@
                &&& final(self).known_mailbox_candidates@.remove(record.user_id@) == old(
                    self,
                ).known_mailbox_candidates@.remove(record.user_id@)
            },
    {
        let request = match self.pending_lookups.remove(&lookup) {
            Some(request) => request,
            None => {
                return None;
            },
        };
        match (&request, found) {
            (LookupRequest::UserRecord { .. }, LookupResult::FoundUser(record)) => {
                if record.mailbox_candidates.len() > 0 {
                    let relays = copy_names(&record.mailbox_candidates);
                    self.known_mailbox_candidates.insert(record.user_id.clone(), relays);
                    assert(self.known_mailbox_candidates@.remove(record.user_id@) =~= old(
                        self,
                    ).known_mailbox_candidates@.remove(record.user_id@));
                }
            },
            _ => {},
        }
        Some(request)
    }
}

/// Whether the known mailbox relays change as the result of a lookup says.
pub open spec fn relays_learned(
    request: LookupRequest,
    found: LookupResult,
    before: Map<Seq<char>, Vec<RelayId>>,
    after: Map<Seq<char>, Vec<RelayId>>,
) -> bool {
    match found {
        LookupResult::FoundUser(record) if request is UserRecord
            && record.mailbox_candidates@.len() > 0 => {
            exists|relays: Vec<RelayId>|
                relays@ == record.mailbox_candidates@ && after == #[trigger] before.insert(
                    record.user_id@,
                    relays,
                )
        },
        _ => after == before,
    }
}

/// A copy of some names.
fn copy_names(list: &Vec<String>) -> (copy: Vec<String>)
    ensures
        copy@ == list@,
{
    let mut copy: Vec<String> = Vec::new();
    let mut i: usize = 0;
    while i < list.len()
        invariant
            i <= list@.len(),
            copy@ =~= list@.take(i as int),
        decreases list@.len() - i,
    {
        copy.push(list[i].clone());
        assert(list@.take(i + 1) =~= list@.take(i as int).push(list@[i as int]));
        i = i + 1;
    }
    assert(list@.take(i as int) =~= list@);
    copy
}

} // verus!
