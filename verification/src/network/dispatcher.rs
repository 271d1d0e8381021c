//! What happens to a packet that arrives, and how a message becomes a packet
//! that leaves.
use vstd::prelude::*;

use crate::bytes;
use crate::constants::ONION_MIN_HOPS;
use crate::crypto::suite;
use crate::crypto::{EncryptedEnvelope, EnvelopeModel};
use crate::errors::{CryptoError, MessengerError, OnionFault};
use crate::identity;
use crate::identity::Identity;
use crate::network::mailbox::service;
use crate::network::mailbox::MailboxService;
use crate::network::onion;
use crate::network::onion::builder;
use crate::network::onion::encrypt;
use crate::network::onion::{build_circuit, peel_layer, wrap_layers, HopModel, OnionHop, OnionPacket};
use crate::network::relay::router;
use crate::network::relay::router::{decide_and_route, RouteAction};
use crate::network::relay::scoring;
use crate::network::relay::scoring::{OnionKeySource, RelayScoring};
use crate::network::{IncomingMessage, OutboundPacket};
use crate::protocol;
use crate::protocol::{Packet, PacketModel, PacketType};
use crate::session::laws;
use crate::session::manager;
use crate::session::manager::{
    ManagerModel, PeerIdentitySource, PreKeyBundleSource, SessionManager,
};
use crate::storage::mailbox_store;
use crate::storage::mailbox_store::{MailModel, MailboxStore};
use crate::storage::session_store;
use crate::storage::session_store::{SessionStore, StoreModel};
use crate::types::{DestinationHint, DestinationModel, RelayId, UserId};
use crate::wire;
use vstd::utf8;

verus! {

/// Why a packet could not be handled.
#[derive(Debug)]
pub enum DispatchError {
    /// A request for messages does not say whose.
    NoOwner,
    /// A request for messages is not signed by their owner.
    NotOwner(UserId),
    /// The mailbox refused.
    Mailbox(MessengerError),
}

/// What a user signs to ask for the messages in the user's mailbox.
pub open spec fn fetch_claim(owner: Seq<char>) -> Seq<u8> {
    utf8::encode_utf8("MAILBOX_FETCH_V1:"@) + utf8::encode_utf8(owner)
}

/// What a user signs to ask for the messages in the user's mailbox.
fn fetch_claim_bytes(owner: &UserId) -> (claim: Vec<u8>)
    ensures
        claim@ == fetch_claim(owner@),
        claim@ == utf8::encode_utf8("MAILBOX_FETCH_V1:"@) + utf8::encode_utf8(owner@),
{
    let mut claim: Vec<u8> = bytes::to_vec("MAILBOX_FETCH_V1:".as_bytes());
    bytes::append(&mut claim, owner.as_str().as_bytes());
    claim
}

/// The request for one's own messages, signed by their owner.
pub open spec fn fetch_request_model(owner: Seq<char>, signature: Seq<u8>) -> PacketModel {
    PacketModel {
        sender_signature: signature,
        recipient_user_id: owner,
        ..protocol::plain_packet(PacketType::MailboxFetch, Seq::empty())
    }
}

/// The request for this node's own messages. Whoever knows this node's public
/// key finds it granted.
pub fn fetch_mailbox(session_manager: &SessionManager) -> (request: Packet)
    ensures
        request@ == fetch_request_model(
            session_manager@.me.name,
            suite::ed25519_sign(
                session_manager@.me.secret,
                fetch_claim(session_manager@.me.name),
            ),
        ),
        forall|key: [u8; 32]|
            key@ == suite::ed25519_public(session_manager@.me.secret) ==> #[trigger] claim_proved(
                request@,
                Ok(key),
            ),
        request@.kind == 4,
        request@.recipient_user_id == session_manager@.me.name,
        request@.encrypted_payload.len() == 0,
        request@.sender_signature.len() == 64,
        suite::ed25519_verifies(
            suite::ed25519_public(session_manager@.me.secret),
            utf8::encode_utf8("MAILBOX_FETCH_V1:"@) + utf8::encode_utf8(
                session_manager@.me.name,
            ),
            request@.sender_signature,
        ),
{
    let owner: UserId = session_manager.my_user_id().clone();
    let claim: Vec<u8> = fetch_claim_bytes(&owner);
    let signature: Vec<u8> = session_manager.sign_own_bytes(claim.as_slice());
    let mut request = Packet::plain(PacketType::MailboxFetch, Vec::new());
    request.sender_signature = signature;
    request.recipient_user_id = owner;
    request
}

/// Whether a request for messages is its owner's, under the key that was
/// found for the owner.
pub open spec fn claim_proved(request: PacketModel, key: Result<[u8; 32], MessengerError>) -> bool {
    key matches Ok(k) && identity::signature_accepted(
        k@,
        fetch_claim(request.recipient_user_id),
        request.sender_signature,
    )
}

/// Whether a request for messages bears a signature of the owner's name that
/// Ed25519 verifies under a key.
pub open spec fn signed_claim(request: PacketModel, key: Seq<u8>) -> bool {
    &&& request.sender_signature.len() == 64
    &&& suite::ed25519_verifies(
        key,
        utf8::encode_utf8("MAILBOX_FETCH_V1:"@) + utf8::encode_utf8(request.recipient_user_id),
        request.sender_signature,
    )
}

/// The requests of two owners are signed differently: a signature that proves
/// one claim is not one of the other.
pub proof fn claims_name_their_owner(first: Seq<char>, second: Seq<char>)
    requires
        first != second,
    ensures
        fetch_claim(first) != fetch_claim(second),
{
    let a = utf8::encode_utf8(first);
    let b = utf8::encode_utf8(second);
    let prefix = utf8::encode_utf8("MAILBOX_FETCH_V1:"@);
    utf8::encode_utf8_decode_utf8(first);
    utf8::encode_utf8_decode_utf8(second);
    if prefix + a == prefix + b {
        assert(a =~= (prefix + a).skip(prefix.len() as int));
        assert(b =~= (prefix + b).skip(prefix.len() as int));
    }
}

/// How answering a request for messages ends, given the key that was found for
/// their owner: only the owner gets them, and they are deleted when they are
/// handed out.
pub open spec fn serve_outcome<M: MailboxStore>(
    request: Packet,
    key: Result<[u8; 32], MessengerError>,
    before: M,
    after: M,
    result: Result<Packet, DispatchError>,
) -> bool {
    let owner = request.recipient_user_id;
    let waiting = service::pending(before.mail(), owner@);
    &&& before.dependable() ==> after.dependable()
    &&& after.room() >= before.room()
    &&& result is Err ==> after.mail() == before.mail()
    &&& if owner@.len() == 0 {
        result == Err::<Packet, _>(DispatchError::NoOwner)
    } else if !claim_proved(request@, key) {
        result == Err::<Packet, _>(DispatchError::NotOwner(owner))
    } else {
        &&& before.dependable() ==> result is Ok
        &&& result matches Err(e) ==> e is Mailbox
        &&& result matches Ok(response) ==> {
            &&& response@ == protocol::plain_packet(
                PacketType::MailboxFetch,
                wire::batch_bytes(waiting),
            )
            &&& wire::parse_batch(response.encrypted_payload@) == Some(waiting)
            &&& after.mail() == service::mail_of_others(before.mail(), owner@)
        }
    }
}

/// Answers a request for messages, given the key that was found for their
/// owner.
pub fn serve_mailbox<M: MailboxStore>(
    packet: &Packet,
    owner_key: Result<[u8; 32], MessengerError>,
    mailbox_service: &mut MailboxService<M>,
) -> (result: Result<Packet, DispatchError>)
    requires
        old(mailbox_service).valid(),
    ensures
        final(mailbox_service).valid(),
        serve_outcome(
            *packet,
            owner_key,
            old(mailbox_service).store,
            final(mailbox_service).store,
            result,
        ),
        result is Ok ==> owner_key is Ok && signed_claim(packet@, owner_key->Ok_0@),
        packet.recipient_user_id@.len() > 0 && owner_key is Ok && signed_claim(
            packet@,
            owner_key->Ok_0@,
        ) && old(mailbox_service).store.dependable() ==> result is Ok,
        result is Ok ==> hands_over(
            old(mailbox_service).store.mail(),
            packet.recipient_user_id@,
            result->Ok_0@,
        ),
        forall|other: Seq<char>|
            other != packet.recipient_user_id@ ==> #[trigger] final(mailbox_service).handed_to(
                other,
            ) == old(mailbox_service).handed_to(other),
{
    if packet.recipient_user_id.as_str().is_empty() {
        return Err(DispatchError::NoOwner);
    }
    let owner: UserId = packet.recipient_user_id.clone();
    let claim: Vec<u8> = fetch_claim_bytes(&owner);
    let proved = match owner_key {
        Ok(key) => Identity::verify_bytes(
            &key,
            claim.as_slice(),
            packet.sender_signature.as_slice(),
        ),
        Err(_) => false,
    };
    if !proved {
        return Err(DispatchError::NotOwner(owner));
    }
    let waiting = match mailbox_service.fetch_pending(&owner) {
        Ok(waiting) => waiting,
        Err(e) => {
            return Err(DispatchError::Mailbox(e));
        },
    };
    proof {
        service::all_handed_is_all(old(mailbox_service).store.mail(), owner@);
    }
    let ghost fetched = *mailbox_service;
    let acknowledged = mailbox_service.acknowledge_delivered(&owner);
    assert forall|other: Seq<char>| other != owner@ implies #[trigger] mailbox_service.handed_to(
        other,
    ) == old(mailbox_service).handed_to(other) by {
        assert(fetched.handed_to(other) == old(mailbox_service).handed_to(other));
    }
    match acknowledged {
        Ok(_) => {},
        Err(e) => {
            return Err(DispatchError::Mailbox(e));
        },
    }
    let response = Packet::plain(PacketType::MailboxFetch, wire::encode_batch(&waiting));
    proof {
        let mail = old(mailbox_service).store.mail();
        let blobs = wire::parse_batch(response@.encrypted_payload)->Some_0;
        let places = choose|places: Seq<int>| #[trigger]
            service::handed_in_order(mail, owner@, wire::blob_models(waiting@), places);
        assert(blobs == wire::blob_models(waiting@));
        assert(service::handed_in_order(mail, packet.recipient_user_id@, blobs, places));
    }
    Ok(response)
}

/// What to do with a packet that arrived.
pub enum IncomingPlan {
    /// Pass it on, store it or leave it, as its onion layer says.
    Route(RouteAction),
    /// Decrypt the message in it.
    Decrypt,
    /// Answer the request for messages.
    ServeMailbox,
    /// Nothing.
    Ignore,
}

/// Whether a plan is the right one for a packet.
pub open spec fn plan_fits(plan: IncomingPlan, packet: PacketModel, onion_secret: Seq<u8>) -> bool {
    let direct = packet.kind == PacketType::DirectMessage.number();
    if direct || packet.kind == PacketType::RelayForward.number() {
        match onion::peeled(packet.encrypted_payload, onion_secret) {
            Ok(instruction) => plan matches IncomingPlan::Route(action)
                && router::follows_instruction(action, instruction),
            Err(_) => if direct {
                plan == IncomingPlan::Decrypt
            } else {
                plan == IncomingPlan::Ignore
            },
        }
    } else if packet.kind == PacketType::MailboxFetch.number() {
        plan == IncomingPlan::ServeMailbox
    } else {
        plan == IncomingPlan::Ignore
    }
}

/// What to do with a packet that may be an onion or a message for this node.
fn handle_onion_or_direct(packet: &Packet, our_onion_secret: &[u8; 32]) -> (plan: IncomingPlan)
    requires
        packet.kind == PacketType::DirectMessage.number() || packet.kind
            == PacketType::RelayForward.number(),
    ensures
        plan_fits(plan, packet@, our_onion_secret@),
{
    let onion = OnionPacket { layers: bytes::to_vec(packet.encrypted_payload.as_slice()) };
    match peel_layer(&onion, our_onion_secret) {
        Ok(found) => IncomingPlan::Route(decide_and_route(found)),
        Err(_) => if packet.kind == PacketType::DirectMessage.code() {
            IncomingPlan::Decrypt
        } else {
            IncomingPlan::Ignore
        },
    }
}

/// What to do with a packet that arrived, by its type: an onion for this
/// relay, a message for this node, or a request for messages. Other types
/// are ignored.
pub fn plan_incoming(packet: &Packet, our_onion_secret: &[u8; 32]) -> (plan: IncomingPlan)
    ensures
        plan_fits(plan, packet@, our_onion_secret@),
{
    match PacketType::from_code(packet.kind) {
        PacketType::DirectMessage => handle_onion_or_direct(packet, our_onion_secret),
        PacketType::RelayForward => handle_onion_or_direct(packet, our_onion_secret),
        PacketType::MailboxFetch => IncomingPlan::ServeMailbox,
        PacketType::MailboxStore => IncomingPlan::Ignore,
        PacketType::DhtAnnounce => IncomingPlan::Ignore,
        PacketType::DhtLookup => IncomingPlan::Ignore,
        PacketType::DummyTraffic => IncomingPlan::Ignore,
        PacketType::Unknown => IncomingPlan::Ignore,
    }
}

/// What came of a packet that arrived.
pub struct Handled {
    /// The answer, where it is more than an acknowledgement.
    pub response: Option<Packet>,
    /// A packet to send on.
    pub outbound: Option<OutboundPacket>,
    /// A message for this node's user.
    pub incoming: Option<IncomingMessage>,
}

/// Nothing came of it.
pub open spec fn nothing(handled: Handled) -> bool {
    handled.response is None && handled.outbound is None && handled.incoming is None
}

/// How carrying out a plan ends, by what the stores and the sources answer.
pub open spec fn carried_out<M: MailboxStore, B: PreKeyBundleSource, I: PeerIdentitySource>(
    plan: IncomingPlan,
    packet: Packet,
    before: SessionManager,
    after: SessionManager,
    store_before: StoreModel,
    store_after: StoreModel,
    mail_before: M,
    mail_after: M,
    bundles: B,
    identities: I,
    result: Result<Handled, DispatchError>,
) -> bool {
    &&& !(plan is Decrypt) ==> after == before && store_after == store_before
    &&& match plan {
        IncomingPlan::Route(RouteAction::Send(outbound)) => {
            &&& mail_after == mail_before
            &&& result matches Ok(h)
            &&& h.response is None
            &&& h.outbound == Some(outbound)
            &&& h.incoming is None
        },
        IncomingPlan::Route(RouteAction::Store { user, payload }) => exists|
            stored: Result<(), MessengerError>,
        |
            {
                &&& #[trigger] service::store_outcome(
                    mail_before,
                    mail_after,
                    user,
                    payload@,
                    stored,
                )
                &&& match stored {
                    Ok(_) => result matches Ok(h) && nothing(h),
                    Err(e) => result == Err::<Handled, _>(DispatchError::Mailbox(e)),
                }
            },
        IncomingPlan::Route(RouteAction::DirectPeer(_)) => {
            &&& mail_after == mail_before
            &&& result matches Ok(h)
            &&& nothing(h)
        },
        IncomingPlan::Decrypt => {
            &&& mail_after == mail_before
            &&& result matches Ok(h)
            &&& h.response is None
            &&& h.outbound is None
            &&& exists|opened: Result<(UserId, Vec<u8>), MessengerError>| #[trigger]
                manager::message_outcome(
                    before@,
                    after@,
                    store_before,
                    store_after,
                    packet.encrypted_payload@,
                    bundles,
                    identities,
                    opened,
                ) && handed_over(h.incoming, opened)
        },
        IncomingPlan::ServeMailbox => served(
            packet,
            mail_before,
            mail_after,
            identities,
            result,
        ),
        IncomingPlan::Ignore => {
            &&& mail_after == mail_before
            &&& result matches Ok(h)
            &&& nothing(h)
        },
    }
}

/// How answering a request for messages ends: under a key that the source
/// gives for their owner.
pub open spec fn served<M: MailboxStore, I: PeerIdentitySource>(
    request: Packet,
    before: M,
    after: M,
    identities: I,
    result: Result<Handled, DispatchError>,
) -> bool {
    exists|key: Result<[u8; 32], MessengerError>, answer: Result<Packet, DispatchError>|
        {
            &&& #[trigger] manager::identity_answer(
                identities,
                request.recipient_user_id@,
                key,
            )
            &&& #[trigger] serve_outcome(request, key, before, after, answer)
            &&& match answer {
                Ok(response) => {
                    &&& result matches Ok(h)
                    &&& h.response == Some(response)
                    &&& h.outbound is None
                    &&& h.incoming is None
                },
                Err(e) => result == Err::<Handled, _>(e),
            }
        }
}

/// Whether a message that was decrypted is handed over, and only such a one.
pub open spec fn handed_over(
    incoming: Option<IncomingMessage>,
    opened: Result<(UserId, Vec<u8>), MessengerError>,
) -> bool {
    match opened {
        Ok(m) => incoming matches Some(i) && i.from == m.0 && i.plaintext == m.1,
        Err(_) => incoming is None,
    }
}

/// Whether a packet may be under an onion layer for this node.
pub open spec fn is_layered(packet: PacketModel) -> bool {
    packet.kind == 1 || packet.kind == 2
}

/// Whether a message was put into a user's mailbox, and nothing else changed.
pub open spec fn put_into(
    before: Seq<MailModel>,
    after: Seq<MailModel>,
    user: Seq<char>,
    payload: Seq<u8>,
) -> bool {
    exists|kept: MailModel|
        {
            &&& #[trigger] mailbox_store::one_more(before, after, kept)
            &&& kept.recipient == user
            &&& kept.blob == payload
        }
}

/// Whether a packet hands over all messages that wait for a user, in order.
pub open spec fn hands_over(mail: Seq<MailModel>, user: Seq<char>, response: PacketModel) -> bool {
    &&& response.kind == 4
    &&& wire::parse_batch(response.encrypted_payload) is Some
    &&& exists|places: Seq<int>| #[trigger]
        service::handed_in_order(
            mail,
            user,
            wire::parse_batch(response.encrypted_payload)->Some_0,
            places,
        )
}

/// Handles a packet that arrived.
pub fn handle_incoming_packet<
    M: MailboxStore,
    S: SessionStore,
    B: PreKeyBundleSource,
    I: PeerIdentitySource,
>(
    packet: &Packet,
    session_manager: &mut SessionManager,
    our_onion_secret: &[u8; 32],
    mailbox_service: &mut MailboxService<M>,
    store: &mut S,
    bundles: &B,
    identities: &I,
) -> (result: Result<Handled, DispatchError>)
    requires
        old(session_manager).wf(),
        old(mailbox_service).valid(),
    ensures
        final(session_manager).wf(),
        final(mailbox_service).valid(),
        exists|plan: IncomingPlan|
            #[trigger] plan_fits(plan, packet@, our_onion_secret@) && carried_out(
                plan,
                *packet,
                *old(session_manager),
                *final(session_manager),
                session_store::store_model(*old(store)),
                session_store::store_model(*final(store)),
                old(mailbox_service).store,
                final(mailbox_service).store,
                *bundles,
                *identities,
                result,
            ),
        forall|other: Seq<char>|
            other != packet.recipient_user_id@ ==> #[trigger] final(mailbox_service).handed_to(
                other,
            ) == old(mailbox_service).handed_to(other),
        result matches Ok(h) ==> (h.incoming matches Some(message) ==> packet.kind == 1
            && laws::heard(
            packet.encrypted_payload@,
            *identities,
            message.from@,
            message.plaintext@,
        )),
        result matches Ok(h) ==> (h.response is Some ==> packet.kind == 4 && exists|key: [u8; 32]|
            #[trigger] identities.vouches(packet.recipient_user_id@, key@) && signed_claim(
                packet@,
                key@,
            )),
        result matches Ok(h) ==> (h.outbound matches Some(outbound) ==> outbound.packet@.kind == 2
            && onion::peeled(packet.encrypted_payload@, our_onion_secret@) == Ok::<
            wire::ContentModel,
            OnionFault,
        >(
            wire::ContentModel::Forward {
                next_hop: outbound.target_peer_id@,
                inner: outbound.packet@.encrypted_payload,
            },
        )),
        is_layered(packet@) ==> (onion::peeled(
            packet.encrypted_payload@,
            our_onion_secret@,
        ) matches Ok(wire::ContentModel::Forward { next_hop, inner }) ==> (result matches Ok(h) && (h.outbound matches Some(outbound)
            && outbound.target_peer_id@ == next_hop && outbound.packet@.encrypted_payload == inner
            && outbound.packet@.kind == 2))),
        is_layered(packet@) ==> (onion::peeled(
            packet.encrypted_payload@,
            our_onion_secret@,
        ) matches Ok(
            wire::ContentModel::Exit { payload, destination: DestinationModel::Mailbox(user) },
        ) ==> {
            let before = old(mailbox_service).store;
            let after = final(mailbox_service).store;
            &&& result is Ok ==> put_into(before.mail(), after.mail(), user, payload)
            &&& result is Err ==> after.mail() == before.mail()
            &&& before.dependable() && before.room() > 0 && service::pending(
                before.mail(),
                user,
            ).len() < 1000 ==> result is Ok
        }),
        packet.kind == 4 && packet.recipient_user_id@.len() > 0 && identities.knows(
            packet.recipient_user_id@,
        ) && old(mailbox_service).store.dependable() && (forall|key: [u8; 32]| #[trigger]
            identities.vouches(packet.recipient_user_id@, key@) ==> signed_claim(packet@, key@))
            ==> result is Ok && result->Ok_0.response is Some && hands_over(
            old(mailbox_service).store.mail(),
            packet.recipient_user_id@,
            result->Ok_0.response->Some_0@,
        ),
        forall|text: Seq<u8>|
            packet.kind == 1 && onion::peeled(packet.encrypted_payload@, our_onion_secret@) is Err
                && old(store).dependable() && #[trigger] laws::arrives(
                old(session_manager)@,
                session_store::store_model(*old(store)),
                packet.encrypted_payload@,
                *bundles,
                *identities,
                text,
            ) ==> result is Ok && result->Ok_0.incoming is Some
                && result->Ok_0.incoming->Some_0.from@ == wire::parse_envelope(
                packet.encrypted_payload@,
            )->Some_0.sender_id && result->Ok_0.incoming->Some_0.plaintext@ == text,
{
    let plan = plan_incoming(packet, our_onion_secret);
    let ghost decided = plan;
    assert(plan_fits(decided, packet@, our_onion_secret@));
    match plan {
        IncomingPlan::Route(RouteAction::Send(outbound)) => Ok(
            Handled { response: None, outbound: Some(outbound), incoming: None },
        ),
        IncomingPlan::Route(RouteAction::Store { user, payload }) => {
            let ghost blob = payload@;
            let stored = service::store_for_user(mailbox_service, &user, payload);
            assert(service::store_outcome(
                old(mailbox_service).store,
                mailbox_service.store,
                user,
                blob,
                stored,
            ));
            match stored {
                Ok(_) => Ok(Handled { response: None, outbound: None, incoming: None }),
                Err(e) => Err(DispatchError::Mailbox(e)),
            }
        },
        IncomingPlan::Route(RouteAction::DirectPeer(_)) => Ok(
            Handled { response: None, outbound: None, incoming: None },
        ),
        IncomingPlan::Decrypt => {
            let opened = session_manager.decrypt_message(packet, store, bundles, identities);
            assert(manager::message_outcome(
                old(session_manager)@,
                session_manager@,
                session_store::store_model(*old(store)),
                session_store::store_model(*store),
                packet.encrypted_payload@,
                *bundles,
                *identities,
                opened,
            ));
            proof {
                if opened is Ok {
                    laws::messages_name_their_senders(
                        old(session_manager)@,
                        session_manager@,
                        session_store::store_model(*old(store)),
                        session_store::store_model(*store),
                        packet.encrypted_payload@,
                        *bundles,
                        *identities,
                        opened,
                    );
                }
            }
            match opened {
                Ok((from, plaintext)) => Ok(
                    Handled {
                        response: None,
                        outbound: None,
                        incoming: Some(IncomingMessage { from, plaintext }),
                    },
                ),
                Err(_) => Ok(Handled { response: None, outbound: None, incoming: None }),
            }
        },
        IncomingPlan::ServeMailbox => {
            let key = identities.fetch_identity_key(&packet.recipient_user_id);
            assert(manager::identity_answer(*identities, packet.recipient_user_id@, key));
            let answer = serve_mailbox(packet, key, mailbox_service);
            assert(serve_outcome(
                *packet,
                key,
                old(mailbox_service).store,
                mailbox_service.store,
                answer,
            ));
            assert(key is Ok ==> identities.vouches(packet.recipient_user_id@, key->Ok_0@));
            match answer {
                Ok(response) => Ok(
                    Handled { response: Some(response), outbound: None, incoming: None },
                ),
                Err(e) => Err(e),
            }
        },
        IncomingPlan::Ignore => Ok(Handled { response: None, outbound: None, incoming: None }),
    }
}

/// Access control: a mailbox is opened for its owner alone. Where no key that
/// the source vouches for verifies the request, it is refused and nothing
/// changes; where every such key does, the owner gets what waited, and that
/// is gone from the mailbox.
pub proof fn mailboxes_open_for_their_owner<M: MailboxStore, I: PeerIdentitySource>(
    request: Packet,
    before: M,
    after: M,
    identities: I,
    result: Result<Handled, DispatchError>,
)
    requires
        served(request, before, after, identities, result),
        request.recipient_user_id@.len() > 0,
    ensures
        (forall|key: [u8; 32]| #[trigger]
            identities.vouches(request.recipient_user_id@, key@) ==> !claim_proved(
                request@,
                Ok(key),
            )) ==> {
            &&& result == Err::<Handled, _>(DispatchError::NotOwner(request.recipient_user_id))
            &&& after.mail() == before.mail()
        },
        result is Ok ==> exists|key: [u8; 32]| #[trigger]
            identities.vouches(request.recipient_user_id@, key@) && claim_proved(request@, Ok(key)),
        before.dependable() && identities.knows(request.recipient_user_id@) && (forall|
            key: [u8; 32],
        | #[trigger]
            identities.vouches(request.recipient_user_id@, key@) ==> claim_proved(
                request@,
                Ok(key),
            )) ==> {
            let waiting = service::pending(before.mail(), request.recipient_user_id@);
            &&& result matches Ok(h)
            &&& h.response matches Some(response)
            &&& wire::parse_batch(response.encrypted_payload@) == Some(waiting)
            &&& after.mail() == service::mail_of_others(before.mail(), request.recipient_user_id@)
        },
{
    let (key, answer) = choose|
        key: Result<[u8; 32], MessengerError>,
        answer: Result<Packet, DispatchError>,
    |
        {
            &&& #[trigger] manager::identity_answer(identities, request.recipient_user_id@, key)
            &&& #[trigger] serve_outcome(request, key, before, after, answer)
            &&& match answer {
                Ok(response) => {
                    &&& result matches Ok(h)
                    &&& h.response == Some(response)
                    &&& h.outbound is None
                    &&& h.incoming is None
                },
                Err(e) => result == Err::<Handled, _>(e),
            }
        };
    if key is Ok {
        assert(identities.vouches(request.recipient_user_id@, key->Ok_0@));
    }
}

/// The packets that the messages in a batch stand for.
pub open spec fn direct_packets(blobs: Seq<Seq<u8>>) -> Seq<PacketModel> {
    blobs.map_values(|b: Seq<u8>| protocol::plain_packet(PacketType::DirectMessage, b))
}

/// The values of packets.
pub open spec fn packet_models(packets: Seq<Packet>) -> Seq<PacketModel> {
    packets.map_values(|p: Packet| p@)
}

/// The messages in an answer to a request for messages, as packets; `None`
/// for any other answer and for one that cannot be decoded.
pub fn mailbox_messages(response: &Packet) -> (packets: Option<Vec<Packet>>)
    ensures
        if response.kind == PacketType::MailboxFetch.number() {
            match wire::parse_batch(response.encrypted_payload@) {
                Some(blobs) => packets matches Some(list) && packet_models(list@) == direct_packets(
                    blobs,
                ),
                None => packets is None,
            }
        } else {
            packets is None
        },
{
    if response.kind != PacketType::MailboxFetch.code() {
        return None;
    }
    let mut blobs = match wire::decode_batch(response.encrypted_payload.as_slice()) {
        Some(blobs) => blobs,
        None => {
            return None;
        },
    };
    let ghost all = wire::blob_models(blobs@);
    let ghost total = blobs@.len();
    let mut packets: Vec<Packet> = Vec::new();
    while blobs.len() > 0
        invariant
            all.len() == total,
            blobs@.len() + packets@.len() == total,
            wire::blob_models(blobs@) =~= all.skip(packets@.len() as int),
            packet_models(packets@) =~= direct_packets(all.take(packets@.len() as int)),
        decreases blobs@.len(),
    {
        let ghost rest = blobs@;
        let ghost done = packets@.len() as int;
        let blob = blobs.remove(0);
        proof {
            assert(wire::blob_models(rest)[0] == all[done]);
            assert(wire::blob_models(blobs@) =~= wire::blob_models(rest).skip(1));
            assert(all.take(done + 1) =~= all.take(done).push(all[done]));
        }
        packets.push(Packet::plain(PacketType::DirectMessage, blob));
        assert(direct_packets(all.take(done + 1)) =~= direct_packets(all.take(done)).push(
            protocol::plain_packet(PacketType::DirectMessage, all[done]),
        ));
    }
    assert(all.take(total as int) =~= all);
    Some(packets)
}

/// The relays of a route to a user's mailbox. Where the user's own relays
/// are known, the last relay is the first usable one of them, behind relays
/// of this node's choice; otherwise all relays are of this node's choice.
pub open spec fn route_choice<K: OnionKeySource>(
    failures: Map<Seq<char>, u32>,
    keys: K,
    mailbox_candidates: Option<Seq<String>>,
    candidates: Seq<String>,
) -> Result<Seq<HopModel>, MessengerError> {
    let own = scoring::usable(failures, keys, candidates, candidates.len());
    match mailbox_candidates {
        Some(theirs) => {
            let exits = scoring::usable(failures, keys, theirs, theirs.len());
            if exits.len() == 0 {
                Err(MessengerError::OnionChainTooShort { min: 1, got: 0 })
            } else if own.len() >= ONION_MIN_HOPS {
                Ok(own.take(ONION_MIN_HOPS as int).push(exits[0]))
            } else {
                Ok(seq![exits[0]])
            }
        },
        None => if own.len() >= ONION_MIN_HOPS {
            Ok(own.take(ONION_MIN_HOPS as int))
        } else {
            Err(
                MessengerError::OnionChainTooShort {
                    min: ONION_MIN_HOPS,
                    got: own.len() as usize,
                },
            )
        },
    }
}

/// Whether a route to a user's mailbox is made of working relays. Where the
/// user's own relays are known, it ends at the first of them that works, and
/// three relays of this node's choice come before it as long as there are as
/// many; otherwise it is made of three of them. They are the first that work.
pub open spec fn route_works<K: OnionKeySource>(
    failures: Map<Seq<char>, u32>,
    keys: K,
    mailbox_candidates: Option<Seq<String>>,
    candidates: Seq<String>,
    hops: Seq<HopModel>,
) -> bool {
    &&& forall|i: int|
        0 <= i < hops.len() ==> {
            let relay = (#[trigger] hops[i]).relay_id;
            &&& failures.dom().contains(relay) ==> failures[relay] < 3
            &&& keys.onion_key(relay) == Some(hops[i].onion_key)
        }
    &&& match mailbox_candidates {
        Some(theirs) => {
            &&& hops.len() == 4 || hops.len() == 1
            &&& scoring::are_first(failures, keys, theirs, seq![hops.last()])
            &&& hops.len() == 4 ==> scoring::are_first(
                failures,
                keys,
                candidates,
                hops.drop_last(),
            )
            &&& hops.len() == 1 ==> scoring::too_few(failures, keys, candidates, 3)
        },
        None => hops.len() == 3 && scoring::are_first(failures, keys, candidates, hops),
    }
}

/// Whether there are no relays for a route to a user's mailbox: none of the
/// user's own relays works, where they are known, or fewer than three of this
/// node's choice.
pub open spec fn no_route<K: OnionKeySource>(
    failures: Map<Seq<char>, u32>,
    keys: K,
    mailbox_candidates: Option<Seq<String>>,
    candidates: Seq<String>,
) -> bool {
    match mailbox_candidates {
        Some(theirs) => scoring::too_few(failures, keys, theirs, 1),
        None => scoring::too_few(failures, keys, candidates, 3),
    }
}

/// The lists of relays that a route is chosen from.
pub open spec fn relay_list(list: Option<&Vec<RelayId>>) -> Option<Seq<String>> {
    match list {
        Some(theirs) => Some(theirs@),
        None => None,
    }
}

/// A chosen route is made of working relays, and none is chosen only where
/// there are too few of them.
pub proof fn routes_are_made_of_working_relays<K: OnionKeySource>(
    failures: Map<Seq<char>, u32>,
    keys: K,
    mailbox_candidates: Option<Seq<String>>,
    candidates: Seq<String>,
)
    ensures
        match route_choice(failures, keys, mailbox_candidates, candidates) {
            Ok(hops) => route_works(failures, keys, mailbox_candidates, candidates, hops),
            Err(_) => no_route(failures, keys, mailbox_candidates, candidates),
        },
{
    scoring::usable_are_first(failures, keys, candidates, 3);
    let own = scoring::usable(failures, keys, candidates, candidates.len());
    if own.len() >= 3 {
        first_are_working(failures, keys, candidates, own.take(3));
    }
    match mailbox_candidates {
        Some(theirs) => {
            scoring::usable_are_first(failures, keys, theirs, 1);
            let exits = scoring::usable(failures, keys, theirs, theirs.len());
            if exits.len() > 0 {
                let exit = seq![exits[0]];
                assert(exits.take(1) =~= exit);
                first_are_working(failures, keys, theirs, exit);
                if own.len() >= 3 {
                    let hops = own.take(3).push(exits[0]);
                    assert(hops.drop_last() =~= own.take(3));
                    assert(seq![hops.last()] =~= exit);
                    assert forall|i: int| 0 <= i < hops.len() implies ({
                        let relay = (#[trigger] hops[i]).relay_id;
                        &&& failures.dom().contains(relay) ==> failures[relay] < 3
                        &&& keys.onion_key(relay) == Some(hops[i].onion_key)
                    }) by {
                        if i < 3 {
                            assert(own.take(3)[i] == hops[i]);
                        } else {
                            assert(exit[0] == hops[i]);
                        }
                    }
                } else {
                    assert(seq![exit.last()] =~= exit);
                }
            }
        },
        None => {},
    }
}

/// The first candidates that can be used have not failed and have keys.
proof fn first_are_working<K: OnionKeySource>(
    failures: Map<Seq<char>, u32>,
    keys: K,
    candidates: Seq<String>,
    hops: Seq<HopModel>,
)
    requires
        scoring::are_first(failures, keys, candidates, hops),
    ensures
        forall|i: int|
            0 <= i < hops.len() ==> {
                let relay = (#[trigger] hops[i]).relay_id;
                &&& failures.dom().contains(relay) ==> failures[relay] < 3
                &&& keys.onion_key(relay) == Some(hops[i].onion_key)
            },
{
    let places = choose|places: Seq<int>| #[trigger]
        scoring::first_working(failures, keys, candidates, hops, places);
    assert forall|i: int| 0 <= i < hops.len() implies ({
        let relay = (#[trigger] hops[i]).relay_id;
        &&& failures.dom().contains(relay) ==> failures[relay] < 3
        &&& keys.onion_key(relay) == Some(hops[i].onion_key)
    }) by {
        assert(scoring::works(failures, keys, candidates, places[i]));
    }
}

/// Chooses the relays of a route to a user's mailbox.
pub fn choose_route<K: OnionKeySource>(
    relay_scoring: &RelayScoring,
    keys: &K,
    mailbox_candidates: Option<&Vec<RelayId>>,
    candidates: &Vec<RelayId>,
) -> (result: Result<Vec<OnionHop>, MessengerError>)
    requires
        relay_scoring.wf(),
        keys.valid(),
    ensures
        match route_choice(
            relay_scoring@,
            *keys,
            match mailbox_candidates {
                Some(theirs) => Some(theirs@),
                None => None,
            },
            candidates@,
        ) {
            Ok(hops) => result matches Ok(list) && onion::hop_models(list@) == hops,
            Err(e) => result == Err::<Vec<OnionHop>, _>(e),
        },
        match result {
            Ok(list) => route_works(
                relay_scoring@,
                *keys,
                relay_list(mailbox_candidates),
                candidates@,
                onion::hop_models(list@),
            ),
            Err(_) => no_route(
                relay_scoring@,
                *keys,
                relay_list(mailbox_candidates),
                candidates@,
            ),
        },
{
    proof {
        routes_are_made_of_working_relays(
            relay_scoring@,
            *keys,
            relay_list(mailbox_candidates),
            candidates@,
        );
    }
    match mailbox_candidates {
        Some(theirs) => {
            let exit = match relay_scoring.select_exit_from(theirs, keys) {
                Ok(exit) => exit,
                Err(e) => {
                    return Err(e);
                },
            };
            let mut hops: Vec<OnionHop> = match relay_scoring.select_hops(
                ONION_MIN_HOPS - 1,
                candidates,
                keys,
            ) {
                Ok(hops) => hops,
                Err(_) => Vec::new(),
            };
            let ghost before = hops@;
            hops.push(exit);
            assert(onion::hop_models(hops@) =~= onion::hop_models(before).push(exit@));
            assert(before.len() == 0 ==> onion::hop_models(hops@) =~= seq![exit@]);
            Ok(hops)
        },
        None => relay_scoring.select_hops(ONION_MIN_HOPS, candidates, keys),
    }
}

/// Whether a payload for a user's mailbox is short enough for a route.
pub open spec fn payload_fits(route: Seq<HopModel>, peer: Seq<char>, payload: Seq<u8>) -> bool {
    encrypt::fits_route(
        route,
        route.len(),
        encrypt::exit_cell(payload, DestinationModel::Mailbox(peer)).len(),
    )
}

/// Wraps a payload for a user's mailbox into a packet for the first relay of
/// a route.
pub fn wrap_for_mailbox(hops: Vec<OnionHop>, peer: &UserId, payload: Vec<u8>) -> (result: Result<
    OutboundPacket,
    MessengerError,
>)
    ensures
        sent_over_route(Ok(onion::hop_models(hops@)), peer@, payload@, result),
{
    if hops.len() < ONION_MIN_HOPS {
        return Err(
            MessengerError::OnionChainTooShort { min: ONION_MIN_HOPS, got: hops.len() },
        );
    }
    let first: RelayId = hops[0].relay_id.clone();
    assert(first@ == onion::hop_models(hops@)[0].relay_id);
    match build_circuit(hops, DestinationHint::Mailbox(peer.clone())) {
        Ok(mut circuit) => match wrap_layers(&mut circuit, payload) {
            Ok(onion) => Ok(
                OutboundPacket {
                    target_peer_id: first,
                    packet: Packet::plain(PacketType::RelayForward, onion.layers),
                },
            ),
            Err(e) => Err(e),
        },
        Err(e) => Err(e),
    }
}

/// Encrypts a message for a user and wraps it into a packet that travels to
/// the user's mailbox.
pub fn send_message<
    K: OnionKeySource,
    S: SessionStore,
    B: PreKeyBundleSource,
    I: PeerIdentitySource,
>(
    session_manager: &mut SessionManager,
    relay_scoring: &RelayScoring,
    keys: &K,
    mailbox_candidates: Option<&Vec<RelayId>>,
    candidates: &Vec<RelayId>,
    peer: &UserId,
    plaintext: &[u8],
    store: &mut S,
    bundles: &B,
    identities: &I,
) -> (result: Result<OutboundPacket, MessengerError>)
    requires
        old(session_manager).wf(),
        relay_scoring.wf(),
        keys.valid(),
    ensures
        final(session_manager).wf(),
        send_outcome(
            old(session_manager)@,
            final(session_manager)@,
            session_store::store_model(*old(store)),
            session_store::store_model(*final(store)),
            route_choice(
                relay_scoring@,
                *keys,
                match mailbox_candidates {
                    Some(theirs) => Some(theirs@),
                    None => None,
                },
                candidates@,
            ),
            *peer,
            plaintext@,
            *bundles,
            *identities,
            result,
        ),
        result matches Ok(outbound) ==> exists|hops: Seq<HopModel>, payload: Seq<u8>|
            {
                &&& #[trigger] route_works(
                    relay_scoring@,
                    *keys,
                    relay_list(mailbox_candidates),
                    candidates@,
                    hops,
                )
                &&& hops.len() >= 3
                &&& outbound.packet@.kind == 2
                &&& outbound.target_peer_id@ == hops[0].relay_id
                &&& #[trigger] onion::travels(
                    outbound.packet.encrypted_payload@,
                    hops,
                    0,
                    payload,
                    DestinationModel::Mailbox(peer@),
                )
            },
{
    let packet = match session_manager.encrypt_message(
        peer,
        plaintext,
        store,
        bundles,
        identities,
    ) {
        Ok(packet) => packet,
        Err(e) => {
            return Err(e);
        },
    };
    match choose_route(relay_scoring, keys, mailbox_candidates, candidates) {
        Ok(hops) => wrap_for_mailbox(hops, peer, packet.encrypted_payload),
        Err(e) => Err(e),
    }
}

/// How sending a message over a chosen route ends, by what the store and the
/// sources answer.
pub open spec fn send_outcome<B: PreKeyBundleSource, I: PeerIdentitySource>(
    before: ManagerModel,
    after: ManagerModel,
    store_before: StoreModel,
    store_after: StoreModel,
    choice: Result<Seq<HopModel>, MessengerError>,
    peer: UserId,
    plaintext: Seq<u8>,
    bundles: B,
    identities: I,
    result: Result<OutboundPacket, MessengerError>,
) -> bool {
    exists|sealed: Result<EncryptedEnvelope, MessengerError>|
        {
            &&& #[trigger] manager::encrypt_outcome(
                before,
                after,
                store_before,
                store_after,
                peer,
                plaintext,
                bundles,
                identities,
                sealed,
            )
            &&& match sealed {
                Ok(e) => {
                    &&& wire::parse_envelope(wire::envelope_bytes(e@)) == Some(e@)
                    &&& sent_over_route(choice, peer@, wire::envelope_bytes(e@), result)
                },
                Err(e) => result == Err::<OutboundPacket, _>(e),
            }
        }
}

/// How sending a payload over a chosen route ends.
pub open spec fn sent_over_route(
    choice: Result<Seq<HopModel>, MessengerError>,
    peer: Seq<char>,
    payload: Seq<u8>,
    result: Result<OutboundPacket, MessengerError>,
) -> bool {
    match choice {
        Err(e) => result == Err::<OutboundPacket, _>(e),
        Ok(hops) => match builder::route_fault(hops.len()) {
            Some(fault) => result == Err::<OutboundPacket, _>(fault),
            None => {
                &&& result is Ok <==> payload_fits(hops, peer, payload)
                &&& result is Err ==> result == Err::<OutboundPacket, _>(
                    MessengerError::Crypto(CryptoError::OnionLayerEncrypt),
                )
                &&& result matches Ok(outbound) ==> {
                    &&& outbound.target_peer_id@ == hops[0].relay_id
                    &&& outbound.packet@ == protocol::plain_packet(
                        PacketType::RelayForward,
                        outbound.packet.encrypted_payload@,
                    )
                    &&& onion::travels(
                        outbound.packet.encrypted_payload@,
                        hops,
                        0,
                        payload,
                        DestinationModel::Mailbox(peer),
                    )
                }
            },
        },
    }
}

/// The size of a dummy packet's payload for a random number: between 64 and
/// 512 bytes.
pub fn dummy_size(draw: u64) -> (size: usize)
    ensures
        size == 64 + draw % 449,
        64 <= size <= 512,
{
    (draw % 449) as usize + 64
}

/// A dummy packet with the given payload.
pub fn dummy_packet_of(payload: Vec<u8>) -> (packet: Packet)
    requires
        payload@.len() <= u32::MAX,
    ensures
        packet@ == (PacketModel {
            padding_len: payload@.len() as u32,
            ..protocol::plain_packet(PacketType::DummyTraffic, payload@)
        }),
{
    let padding_len: u32 = payload.len() as u32;
    let mut packet = Packet::plain(PacketType::DummyTraffic, payload);
    packet.padding_len = padding_len;
    packet
}

/// A dummy packet of random size with random content.
pub fn send_dummy_packet() -> (packet: Packet)
    ensures
        packet@ == (PacketModel {
            padding_len: packet.encrypted_payload@.len() as u32,
            ..protocol::plain_packet(PacketType::DummyTraffic, packet.encrypted_payload@)
        }),
        64 <= packet.encrypted_payload@.len() <= 512,
        exists|draw: u64| #[trigger]
            suite::drawn_number(draw) && packet.encrypted_payload@.len() == 64 + draw % 449,
        suite::drawn_bytes(packet.encrypted_payload@),
{
    let size: usize = dummy_size(suite::draw_number());
    dummy_packet_of(suite::draw_bytes(size))
}

/// Each relay of a route does its part: all but the last pass the rest on to
/// the next relay of the route, and the last stores the payload for its
/// receiver.
pub proof fn relays_follow_the_route(
    plan: IncomingPlan,
    packet: PacketModel,
    hops: Seq<HopModel>,
    from: nat,
    payload: Seq<u8>,
    peer: Seq<char>,
    secret: Seq<u8>,
)
    requires
        from < hops.len(),
        packet.kind == PacketType::RelayForward.number(),
        onion::travels(
            packet.encrypted_payload,
            hops,
            from,
            payload,
            DestinationModel::Mailbox(peer),
        ),
        secret.len() == 32,
        suite::x25519_public(secret) == hops[from as int].onion_key,
        plan_fits(plan, packet, secret),
    ensures
        from + 1 < hops.len() ==> {
            &&& plan matches IncomingPlan::Route(RouteAction::Send(outbound))
            &&& outbound.target_peer_id@ == hops[from as int + 1].relay_id
            &&& outbound.packet@.kind == PacketType::RelayForward.number()
            &&& onion::travels(
                outbound.packet@.encrypted_payload,
                hops,
                from + 1,
                payload,
                DestinationModel::Mailbox(peer),
            )
        },
        from + 1 == hops.len() ==> {
            &&& plan matches IncomingPlan::Route(RouteAction::Store { user, payload: kept })
            &&& user@ == peer
            &&& kept@ == payload
        },
{
    onion::relays_on_the_way(
        packet.encrypted_payload,
        hops,
        from,
        payload,
        DestinationModel::Mailbox(peer),
        secret,
    );
}

/// What the last relay of a route stores is the sealed envelope itself, and
/// the receiver who fetches it decodes the same envelope.
pub proof fn stored_payload_is_the_envelope(e: EnvelopeModel, waiting: Seq<Seq<u8>>, i: int)
    requires
        wire::envelope_fits(e),
        0 <= i < waiting.len(),
        waiting[i] == wire::envelope_bytes(e),
    ensures
        wire::parse_envelope(direct_packets(waiting)[i].encrypted_payload) == Some(e),
{
    wire::envelope_roundtrip(e, Seq::empty());
    assert(wire::envelope_bytes(e) + Seq::<u8>::empty() =~= wire::envelope_bytes(e));
}

/// Whether a packet is passed along a route: each relay has the secret of its
/// onion key and does with the packet what it is told, and each gets what the
/// one before it sends.
pub open spec fn passed_along(
    hops: Seq<HopModel>,
    secrets: Seq<Seq<u8>>,
    packets: Seq<PacketModel>,
    plans: Seq<IncomingPlan>,
) -> bool {
    &&& secrets.len() == hops.len()
    &&& packets.len() == hops.len()
    &&& plans.len() == hops.len()
    &&& forall|i: int|
        0 <= i < hops.len() ==> (#[trigger] secrets[i]).len() == 32 && suite::x25519_public(
            secrets[i],
        ) == hops[i].onion_key
    &&& forall|i: int|
        0 <= i < hops.len() ==> #[trigger] plan_fits(plans[i], packets[i], secrets[i])
    &&& forall|i: int|
        0 <= i && i + 1 < hops.len() ==> (#[trigger] plans[i] matches IncomingPlan::Route(
            RouteAction::Send(outbound),
        ) ==> outbound.target_peer_id@ == hops[i + 1].relay_id ==> packets[i + 1]
            == outbound.packet@)
}

/// Whether a plan is to store a payload for a user.
pub open spec fn stores(plan: IncomingPlan, user: Seq<char>, payload: Seq<u8>) -> bool {
    plan matches IncomingPlan::Route(RouteAction::Store { user: u, payload: p }) && u@ == user
        && p@ == payload
}

/// A packet that is passed along its route gets from relay to relay.
proof fn packets_move_on(
    hops: Seq<HopModel>,
    secrets: Seq<Seq<u8>>,
    packets: Seq<PacketModel>,
    plans: Seq<IncomingPlan>,
    payload: Seq<u8>,
    peer: Seq<char>,
    at: nat,
)
    requires
        at < hops.len(),
        passed_along(hops, secrets, packets, plans),
        packets[0].kind == PacketType::RelayForward.number(),
        onion::travels(
            packets[0].encrypted_payload,
            hops,
            0,
            payload,
            DestinationModel::Mailbox(peer),
        ),
    ensures
        packets[at as int].kind == PacketType::RelayForward.number(),
        onion::travels(
            packets[at as int].encrypted_payload,
            hops,
            at,
            payload,
            DestinationModel::Mailbox(peer),
        ),
    decreases at,
{
    if at > 0 {
        let before = (at - 1) as nat;
        packets_move_on(hops, secrets, packets, plans, payload, peer, before);
        assert(secrets[before as int].len() == 32);
        assert(plan_fits(
            plans[before as int],
            packets[before as int],
            secrets[before as int],
        ));
        relays_follow_the_route(
            plans[before as int],
            packets[before as int],
            hops,
            before,
            payload,
            peer,
            secrets[before as int],
        );
        assert(plans[before as int] is Route);
    }
}

/// A message reaches its reader. What a node sends is passed along the chosen
/// relays, the last of which stores it for the receiver; and what the
/// receiver then finds in the mailbox is read to the same text, under the
/// sender's name.
pub proof fn messages_reach_their_readers<
    B: PreKeyBundleSource,
    I: PeerIdentitySource,
    C: PreKeyBundleSource,
    J: PeerIdentitySource,
>(
    alice: ManagerModel,
    alice_after: ManagerModel,
    alice_store: StoreModel,
    alice_store_after: StoreModel,
    alice_finds: B,
    alice_knows: I,
    hops: Seq<HopModel>,
    secrets: Seq<Seq<u8>>,
    packets: Seq<PacketModel>,
    plans: Seq<IncomingPlan>,
    bob: ManagerModel,
    bob_after: ManagerModel,
    bob_store: StoreModel,
    bob_store_after: StoreModel,
    bob_finds: C,
    bob_knows: J,
    bob_name: UserId,
    there: Seq<u8>,
    back: Seq<u8>,
    plaintext: Seq<u8>,
    outbound: OutboundPacket,
    user: Seq<char>,
    payload: Seq<u8>,
    opened: Result<(UserId, Vec<u8>), MessengerError>,
)
    requires
        alice.me.wf(),
        send_outcome(
            alice,
            alice_after,
            alice_store,
            alice_store_after,
            Ok(hops),
            bob_name,
            plaintext,
            alice_finds,
            alice_knows,
            Ok(outbound),
        ),
        passed_along(hops, secrets, packets, plans),
        hops.len() > 0 ==> packets[0] == outbound.packet@,
        stores(plans.last(), user, payload),
        laws::in_touch(
            alice,
            alice_store,
            alice_finds,
            bob,
            bob_store,
            bob_finds,
            bob_name@,
            there,
            back,
        ),
        laws::stands_for(bob_knows, alice.me),
        bob_store.dependable,
        manager::message_outcome(
            bob,
            bob_after,
            bob_store,
            bob_store_after,
            payload,
            bob_finds,
            bob_knows,
            opened,
        ),
    ensures
        outbound.target_peer_id@ == hops[0].relay_id,
        user == bob_name@,
        opened matches Ok(message) && message.0@ == alice.me.name && message.1@ == plaintext,
{
    let sealed = choose|sealed: Result<EncryptedEnvelope, MessengerError>|
        {
            &&& #[trigger] manager::encrypt_outcome(
                alice,
                alice_after,
                alice_store,
                alice_store_after,
                bob_name,
                plaintext,
                alice_finds,
                alice_knows,
                sealed,
            )
            &&& match sealed {
                Ok(e) => {
                    &&& wire::parse_envelope(wire::envelope_bytes(e@)) == Some(e@)
                    &&& sent_over_route(
                        Ok(hops),
                        bob_name@,
                        wire::envelope_bytes(e@),
                        Ok(outbound),
                    )
                },
                Err(e) => Ok::<OutboundPacket, MessengerError>(outbound) == Err::<
                    OutboundPacket,
                    _,
                >(e),
            }
        };
    let e = sealed->Ok_0;
    let last = (hops.len() - 1) as nat;
    packets_move_on(
        hops,
        secrets,
        packets,
        plans,
        wire::envelope_bytes(e@),
        bob_name@,
        last,
    );
    assert(secrets[last as int].len() == 32);
    assert(plan_fits(plans[last as int], packets[last as int], secrets[last as int]));
    relays_follow_the_route(
        plans[last as int],
        packets[last as int],
        hops,
        last,
        wire::envelope_bytes(e@),
        bob_name@,
        secrets[last as int],
    );
    laws::sent_messages_are_read(
        alice,
        alice_after,
        alice_store,
        alice_store_after,
        alice_finds,
        alice_knows,
        bob,
        bob_after,
        bob_store,
        bob_store_after,
        bob_finds,
        bob_knows,
        bob_name,
        there,
        back,
        plaintext,
        e,
        payload,
        opened,
    );
}

} // verus!
