//! What the session manager promises as a whole: of every conversation, and of
//! every answer that the store and the sources may give.
use vstd::prelude::*;

use crate::crypto;
use crate::crypto::ratchet;
use crate::crypto::suite;
use crate::crypto::x3dh;
use crate::crypto::x3dh::PreKeyBundle;
use crate::crypto::{EncryptedEnvelope, EnvelopeModel, InitModel, SessionInit};
use crate::errors::MessengerError;
use crate::identity;
use crate::identity::IdentityModel;
use crate::session::manager;
use crate::session::manager::{ManagerModel, PeerIdentitySource, PreKeyBundleSource};
use crate::session::state;
use crate::session::state::{SessionModel, SessionOrigin};
use crate::storage::session_store;
use crate::storage::session_store::StoreModel;
use crate::types::UserId;
use crate::wire;

verus! {

/// Whether a stranger can be written to: both sources have an answer, and
/// every bundle that the one publishes is signed under every key that the
/// other vouches for.
pub open spec fn contact_possible<B: PreKeyBundleSource, I: PeerIdentitySource>(
    peer: Seq<char>,
    bundles: B,
    identities: I,
) -> bool {
    &&& bundles.knows(peer)
    &&& identities.knows(peer)
    &&& forall|bundle: PreKeyBundle, key: [u8; 32]| #[trigger]
        bundles.publishes(peer, bundle) && #[trigger] identities.vouches(peer, key@)
            ==> manager::bundle_signed(bundle, key@)
}

/// Whether a message can be sent: the store works, the text is not too long
/// for the cipher, and there is a session with numbers left, in memory or
/// stored, or else the peer can be contacted.
pub open spec fn sendable<B: PreKeyBundleSource, I: PeerIdentitySource>(
    m: ManagerModel,
    store: StoreModel,
    peer: Seq<char>,
    plaintext: Seq<u8>,
    bundles: B,
    identities: I,
) -> bool {
    &&& store.dependable
    &&& plaintext.len() <= suite::MAX_PLAINTEXT
    &&& match manager::found_session(m, store, peer) {
        Some(session) => state::can_send(session),
        None => contact_possible(peer, bundles, identities),
    }
}

/// Whether a session was set up over a bundle that the source publishes for
/// the peer, signed under a key that the other source vouches for.
pub open spec fn contact_vouched<B: PreKeyBundleSource, I: PeerIdentitySource>(
    m: ManagerModel,
    peer: Seq<char>,
    session: SessionModel,
    init: InitModel,
    bundles: B,
    identities: I,
) -> bool {
    exists|bundle: PreKeyBundle, key: [u8; 32]|
        {
            &&& #[trigger] bundles.publishes(peer, bundle)
            &&& #[trigger] identities.vouches(peer, key@)
            &&& manager::bundle_signed(bundle, key@)
            &&& manager::set_up(m, peer, bundle, session, init)
        }
}

/// Whether a message bears a signature under a key that the source vouches
/// for.
pub open spec fn signed_by_peer<I: PeerIdentitySource>(
    peer: Seq<char>,
    e: EnvelopeModel,
    identities: I,
) -> bool {
    exists|key: [u8; 32]| #[trigger]
        identities.vouches(peer, key@) && identity::signature_accepted(
            key@,
            e.signable(),
            e.sender_signature,
        )
}

/// Whether the source knows the peer and every key that it vouches for
/// verifies a message.
pub open spec fn surely_from_peer<I: PeerIdentitySource>(
    peer: Seq<char>,
    e: EnvelopeModel,
    identities: I,
) -> bool {
    &&& e.sender_id == peer
    &&& identities.knows(peer)
    &&& forall|key: [u8; 32]| #[trigger]
        identities.vouches(peer, key@) ==> identity::signature_accepted(
            key@,
            e.signable(),
            e.sender_signature,
        )
}

/// The session that the parameters in a first message lead to, over a bundle
/// of the sender.
pub open spec fn other_half(
    m: ManagerModel,
    peer: Seq<char>,
    init: InitModel,
    bundle: PreKeyBundle,
) -> SessionModel {
    state::fresh(
        peer,
        SessionOrigin::Accepted,
        manager::accepted_root(m, init, bundle.identity_key@),
        0,
    )
}

/// Whether a message can be read to a plaintext: over the session that there
/// is already, or over the one that it announces, whatever bundle the source
/// publishes for the sender.
pub open spec fn readable<B: PreKeyBundleSource>(
    m: ManagerModel,
    store: StoreModel,
    peer: Seq<char>,
    e: EnvelopeModel,
    bundles: B,
    plaintext: Seq<u8>,
) -> bool {
    match manager::session_to_read(m, store, peer, e.session_init) {
        Some(session) => {
            &&& state::can_receive(session)
            &&& ratchet::receive_result(session.ratchet, e) == Ok::<Seq<u8>, ratchet::RatchetError>(
                plaintext,
            )
        },
        None => {
            &&& e.session_init matches Some(init)
            &&& bundles.knows(peer)
            &&& forall|bundle: PreKeyBundle| #[trigger]
                bundles.publishes(peer, bundle) ==> ratchet::receive_result(
                    other_half(m, peer, init, bundle).ratchet,
                    e,
                ) == Ok::<Seq<u8>, ratchet::RatchetError>(plaintext)
        },
    }
}

/// What making sure of a session to send over comes to.
proof fn ready_to_send_facts<B: PreKeyBundleSource, I: PeerIdentitySource>(
    before: ManagerModel,
    after: ManagerModel,
    store_before: StoreModel,
    store_after: StoreModel,
    peer: UserId,
    bundles: B,
    identities: I,
    result: Result<Option<SessionInit>, MessengerError>,
)
    requires
        manager::ready_to_send(
            before,
            after,
            store_before,
            store_after,
            peer,
            bundles,
            identities,
            result,
        ),
    ensures
        manager::others_unchanged(before, after, store_before, store_after, peer@),
        after.prekeys == before.prekeys,
        store_before.dependable ==> store_after.dependable,
        result is Err ==> after == before && store_after.stored == store_before.stored,
        result matches Ok(init) ==> {
            &&& after.sessions.dom().contains(peer@)
            &&& init is Some <==> manager::found_session(before, store_before, peer@) is None
            &&& manager::found_session(before, store_before, peer@) matches Some(s) ==> {
                &&& after.sessions[peer@] == s
                &&& store_after == store_before
            }
            &&& init matches Some(i) ==> contact_vouched(
                before,
                peer@,
                after.sessions[peer@],
                i@,
                bundles,
                identities,
            )
        },
        store_before.dependable && manager::found_session(before, store_before, peer@) is Some
            ==> result is Ok,
        store_before.dependable && contact_possible(peer@, bundles, identities) ==> result is Ok,
{
    assert(after.sessions.remove(peer@) =~= before.sessions.remove(peer@));
    assert(store_after.stored.remove(peer@) =~= store_before.stored.remove(peer@));
}

/// What encrypting over a session and storing it comes to.
proof fn seal_and_store_facts(
    before: ManagerModel,
    after: ManagerModel,
    store_before: StoreModel,
    store_after: StoreModel,
    peer: UserId,
    plaintext: Seq<u8>,
    init: Option<InitModel>,
    result: Result<EncryptedEnvelope, MessengerError>,
)
    requires
        manager::seal_and_store(
            before,
            after,
            store_before,
            store_after,
            peer,
            plaintext,
            init,
            result,
        ),
        before.sessions.dom().contains(peer@),
    ensures
        manager::others_unchanged(before, after, store_before, store_after, peer@),
        after.prekeys == before.prekeys,
        result matches Ok(e) ==> {
            &&& manager::stamped(e@, before.me, init)
            &&& ratchet::carries(e@, before.sessions[peer@].ratchet, plaintext)
            &&& after.sessions[peer@] == state::sent(
                before.sessions[peer@],
                after.sessions[peer@].last_used_at,
            )
            &&& manager::in_step(after, store_after, peer@)
        },
        store_before.dependable && state::can_send(before.sessions[peer@]) && plaintext.len()
            <= suite::MAX_PLAINTEXT ==> result is Ok,
{
    assert(after.sessions.remove(peer@) =~= before.sessions.remove(peer@));
    assert(store_after.stored.remove(peer@) =~= store_before.stored.remove(peer@));
}

/// Sending, however it ends, touches one conversation: this node's keys and
/// prekeys and the sessions with everybody else stay as they were. A message
/// that comes out bears this node's name and signature, continues the session
/// in memory or the stored one, and carries session parameters exactly where
/// there was neither; those announce a session over a bundle that the sources
/// stand for. The store then holds the state of the session.
pub proof fn sent_messages_are_in_order<B: PreKeyBundleSource, I: PeerIdentitySource>(
    before: ManagerModel,
    after: ManagerModel,
    store_before: StoreModel,
    store_after: StoreModel,
    peer: UserId,
    plaintext: Seq<u8>,
    bundles: B,
    identities: I,
    result: Result<EncryptedEnvelope, MessengerError>,
)
    requires
        manager::encrypt_outcome(
            before,
            after,
            store_before,
            store_after,
            peer,
            plaintext,
            bundles,
            identities,
            result,
        ),
    ensures
        manager::others_unchanged(before, after, store_before, store_after, peer@),
        after.prekeys == before.prekeys,
        result matches Ok(e) ==> {
            &&& manager::stamped(e@, before.me, e@.session_init)
            &&& manager::in_step(after, store_after, peer@)
            &&& match manager::found_session(before, store_before, peer@) {
                Some(session) => {
                    &&& e@.session_init is None
                    &&& ratchet::carries(e@, session.ratchet, plaintext)
                    &&& after.sessions[peer@] == state::sent(
                        session,
                        after.sessions[peer@].last_used_at,
                    )
                },
                None => e@.session_init is Some && exists|session: SessionModel|
                    {
                        &&& #[trigger] contact_vouched(
                            before,
                            peer@,
                            session,
                            e@.session_init->Some_0,
                            bundles,
                            identities,
                        )
                        &&& ratchet::carries(e@, session.ratchet, plaintext)
                        &&& after.sessions[peer@] == state::sent(
                            session,
                            after.sessions[peer@].last_used_at,
                        )
                    },
            }
        },
{
    let (ready, store_ready, prepared) = choose|
        ready: ManagerModel,
        store_ready: StoreModel,
        prepared: Result<Option<SessionInit>, MessengerError>,
    |
        {
            &&& #[trigger] manager::ready_to_send(
                before,
                ready,
                store_before,
                store_ready,
                peer,
                bundles,
                identities,
                prepared,
            )
            &&& match prepared {
                Err(e) => {
                    &&& after == ready
                    &&& store_after == store_ready
                    &&& result == Err::<EncryptedEnvelope, _>(e)
                },
                Ok(init) => manager::seal_and_store(
                    ready,
                    after,
                    store_ready,
                    store_after,
                    peer,
                    plaintext,
                    crypto::init_model(init),
                    result,
                ),
            }
        };
    ready_to_send_facts(
        before,
        ready,
        store_before,
        store_ready,
        peer,
        bundles,
        identities,
        prepared,
    );
    if let Ok(init) = prepared {
        seal_and_store_facts(
            ready,
            after,
            store_ready,
            store_after,
            peer,
            plaintext,
            crypto::init_model(init),
            result,
        );
        if let Some(i) = init {
            assert(contact_vouched(
                before,
                peer@,
                ready.sessions[peer@],
                i@,
                bundles,
                identities,
            ));
        }
    }
}

/// A message that can be sent is sent: over a session in memory or a stored
/// one that has numbers left, or to a stranger whom the sources know, as long
/// as the store works and the text is not too long for the cipher.
pub proof fn sending_succeeds<B: PreKeyBundleSource, I: PeerIdentitySource>(
    before: ManagerModel,
    after: ManagerModel,
    store_before: StoreModel,
    store_after: StoreModel,
    peer: UserId,
    plaintext: Seq<u8>,
    bundles: B,
    identities: I,
    result: Result<EncryptedEnvelope, MessengerError>,
)
    requires
        manager::encrypt_outcome(
            before,
            after,
            store_before,
            store_after,
            peer,
            plaintext,
            bundles,
            identities,
            result,
        ),
        sendable(before, store_before, peer@, plaintext, bundles, identities),
    ensures
        result is Ok,
{
    let (ready, store_ready, prepared) = choose|
        ready: ManagerModel,
        store_ready: StoreModel,
        prepared: Result<Option<SessionInit>, MessengerError>,
    |
        {
            &&& #[trigger] manager::ready_to_send(
                before,
                ready,
                store_before,
                store_ready,
                peer,
                bundles,
                identities,
                prepared,
            )
            &&& match prepared {
                Err(e) => {
                    &&& after == ready
                    &&& store_after == store_ready
                    &&& result == Err::<EncryptedEnvelope, _>(e)
                },
                Ok(init) => manager::seal_and_store(
                    ready,
                    after,
                    store_ready,
                    store_after,
                    peer,
                    plaintext,
                    crypto::init_model(init),
                    result,
                ),
            }
        };
    ready_to_send_facts(
        before,
        ready,
        store_before,
        store_ready,
        peer,
        bundles,
        identities,
        prepared,
    );
    if let Ok(init) = prepared {
        seal_and_store_facts(
            ready,
            after,
            store_ready,
            store_after,
            peer,
            plaintext,
            crypto::init_model(init),
            result,
        );
    }
}

/// What making sure of a session to read over comes to.
proof fn ready_to_read_facts<B: PreKeyBundleSource>(
    before: ManagerModel,
    after: ManagerModel,
    store_before: StoreModel,
    store_after: StoreModel,
    peer: UserId,
    e: EnvelopeModel,
    bundles: B,
    plaintext: Seq<u8>,
    result: Result<(), MessengerError>,
)
    requires
        manager::ready_to_read(
            before,
            after,
            store_before,
            store_after,
            peer,
            e.session_init,
            bundles,
            result,
        ),
    ensures
        manager::others_unchanged(before, after, store_before, store_after, peer@),
        after.prekeys == before.prekeys || (e.session_init matches Some(init) && after.prekeys
            == manager::pool_after(before, init)),
        store_before.dependable ==> store_after.dependable,
        result is Ok ==> after.sessions.dom().contains(peer@),
        result is Ok ==> (manager::session_to_read(before, store_before, peer@, e.session_init) matches Some(s)
            ==> after.sessions[peer@] == s && store_after == store_before && after.prekeys
            == before.prekeys),
        store_before.dependable && readable(before, store_before, peer@, e, bundles, plaintext)
            ==> {
            &&& result is Ok
            &&& state::can_receive(after.sessions[peer@])
            &&& ratchet::receive_result(after.sessions[peer@].ratchet, e) == Ok::<
                Seq<u8>,
                ratchet::RatchetError,
            >(plaintext)
        },
        manager::session_to_read(before, store_before, peer@, e.session_init) is None && e.session_init is None
            ==> result is Err && after == before && store_after == store_before,
{
    assert(after.sessions.remove(peer@) =~= before.sessions.remove(peer@));
    assert(store_after.stored.remove(peer@) =~= store_before.stored.remove(peer@));
}

/// What decrypting over a session and storing it comes to.
proof fn open_and_store_facts(
    before: ManagerModel,
    after: ManagerModel,
    store_before: StoreModel,
    store_after: StoreModel,
    peer: UserId,
    e: EnvelopeModel,
    plaintext: Seq<u8>,
    result: Result<Vec<u8>, MessengerError>,
)
    requires
        manager::open_and_store(
            before,
            after,
            store_before,
            store_after,
            peer,
            e,
            result,
        ),
        before.sessions.dom().contains(peer@),
    ensures
        manager::others_unchanged(before, after, store_before, store_after, peer@),
        after.prekeys == before.prekeys,
        result matches Ok(text) ==> {
            &&& ratchet::receive_result(before.sessions[peer@].ratchet, e) == Ok::<
                Seq<u8>,
                ratchet::RatchetError,
            >(text@)
            &&& after.sessions[peer@] == state::received(
                before.sessions[peer@],
                e.counter,
                after.sessions[peer@].last_used_at,
            )
            &&& manager::in_step(after, store_after, peer@)
        },
        store_before.dependable && state::can_receive(before.sessions[peer@])
            && ratchet::receive_result(before.sessions[peer@].ratchet, e) == Ok::<
            Seq<u8>,
            ratchet::RatchetError,
        >(plaintext) ==> (result matches Ok(text) && text@ == plaintext),
{
    assert(after.sessions.remove(peer@) =~= before.sessions.remove(peer@));
    assert(store_after.stored.remove(peer@) =~= store_before.stored.remove(peer@));
}

/// What decrypting a message whose signature was accepted comes to.
proof fn read_outcome_facts<B: PreKeyBundleSource>(
    before: ManagerModel,
    after: ManagerModel,
    store_before: StoreModel,
    store_after: StoreModel,
    peer: UserId,
    e: EnvelopeModel,
    bundles: B,
    plaintext: Seq<u8>,
    result: Result<Vec<u8>, MessengerError>,
)
    requires
        manager::read_outcome(
            before,
            after,
            store_before,
            store_after,
            peer,
            e,
            bundles,
            result,
        ),
    ensures
        manager::others_unchanged(before, after, store_before, store_after, peer@),
        after.prekeys == before.prekeys || (e.session_init matches Some(init) && after.prekeys
            == manager::pool_after(before, init)),
        result is Ok ==> manager::in_step(after, store_after, peer@),
        result matches Ok(text) ==> (manager::session_to_read(before, store_before, peer@, e.session_init) matches
            Some(session) ==> {
            &&& ratchet::receive_result(session.ratchet, e) == Ok::<
                Seq<u8>,
                ratchet::RatchetError,
            >(text@)
            &&& after.sessions[peer@] == state::received(
                session,
                e.counter,
                after.sessions[peer@].last_used_at,
            )
            &&& after.prekeys == before.prekeys
        }),
        manager::session_to_read(before, store_before, peer@, e.session_init) is None && e.session_init is None
            ==> result is Err && after == before && store_after == store_before,
        store_before.dependable && readable(before, store_before, peer@, e, bundles, plaintext)
            ==> (result matches Ok(text) && text@ == plaintext),
{
    let (ready, store_ready, prepared) = choose|
        ready: ManagerModel,
        store_ready: StoreModel,
        prepared: Result<(), MessengerError>,
    |
        {
            &&& #[trigger] manager::ready_to_read(
                before,
                ready,
                store_before,
                store_ready,
                peer,
                e.session_init,
                bundles,
                prepared,
            )
            &&& match prepared {
                Err(error) => {
                    &&& after == ready
                    &&& store_after == store_ready
                    &&& result == Err::<Vec<u8>, _>(error)
                },
                Ok(_) => manager::open_and_store(
                    ready,
                    after,
                    store_ready,
                    store_after,
                    peer,
                    e,
                    result,
                ),
            }
        };
    ready_to_read_facts(
        before,
        ready,
        store_before,
        store_ready,
        peer,
        e,
        bundles,
        plaintext,
        prepared,
    );
    if prepared is Ok {
        open_and_store_facts(
            ready,
            after,
            store_ready,
            store_after,
            peer,
            e,
            plaintext,
            result,
        );
    }
}

/// Only the sender is heard. A message that is read bears the peer's name and
/// a signature under a key that the source vouches for as the peer's; one
/// that no such key verifies is refused and changes nothing, so that the
/// peer's own message with the same number can still be read.
pub proof fn only_the_sender_is_heard<B: PreKeyBundleSource, I: PeerIdentitySource>(
    before: ManagerModel,
    after: ManagerModel,
    store_before: StoreModel,
    store_after: StoreModel,
    peer: UserId,
    e: EncryptedEnvelope,
    bundles: B,
    identities: I,
    result: Result<Vec<u8>, MessengerError>,
)
    requires
        manager::decrypt_outcome(
            before,
            after,
            store_before,
            store_after,
            peer,
            e,
            bundles,
            identities,
            result,
        ),
    ensures
        result is Ok ==> e@.sender_id == peer@ && signed_by_peer(peer@, e@, identities),
        !signed_by_peer(peer@, e@, identities) ==> {
            &&& after == before
            &&& store_after == store_before
            &&& result is Err
        },
        e@.sender_id == peer@ && !signed_by_peer(peer@, e@, identities) ==> {
            ||| result == Err::<Vec<u8>, _>(MessengerError::InvalidMessageSignature(peer))
            ||| result == Err::<Vec<u8>, _>(MessengerError::IdentityKeyNotFound(peer))
                && !identities.knows(peer@)
        },
{
    if e@.sender_id == peer@ {
        let key = choose|key: Result<[u8; 32], MessengerError>|
            {
                &&& #[trigger] manager::identity_answer(identities, peer@, key)
                &&& match manager::signature_verdict(peer, e@, key) {
                    Err(error) => {
                        &&& after == before
                        &&& store_after == store_before
                        &&& result == Err::<Vec<u8>, _>(error)
                    },
                    Ok(_) => manager::read_outcome(
                        before,
                        after,
                        store_before,
                        store_after,
                        peer,
                        e@,
                        bundles,
                        result,
                    ),
                }
            };
        if key is Ok {
            assert(identities.vouches(peer@, key->Ok_0@));
        }
    }
}

/// Reading, however it ends, touches one conversation: this node's keys and
/// the sessions with everybody else stay as they were, and no prekey leaves
/// the pool but the one that a first message names. A message that is read is
/// the next step of the session in memory or, unless it announces a new one,
/// of the stored one, and the store then holds the state of the session.
pub proof fn read_messages_are_in_order<B: PreKeyBundleSource, I: PeerIdentitySource>(
    before: ManagerModel,
    after: ManagerModel,
    store_before: StoreModel,
    store_after: StoreModel,
    peer: UserId,
    e: EncryptedEnvelope,
    bundles: B,
    identities: I,
    result: Result<Vec<u8>, MessengerError>,
)
    requires
        manager::decrypt_outcome(
            before,
            after,
            store_before,
            store_after,
            peer,
            e,
            bundles,
            identities,
            result,
        ),
    ensures
        manager::others_unchanged(before, after, store_before, store_after, peer@),
        after.prekeys == before.prekeys || (e@.session_init matches Some(init) && after.prekeys
            == manager::pool_after(before, init)),
        manager::session_to_read(before, store_before, peer@, e@.session_init) is None && e@.session_init is None
            ==> result is Err && after == before && store_after == store_before,
        result matches Ok(text) ==> {
            &&& manager::in_step(after, store_after, peer@)
            &&& manager::session_to_read(before, store_before, peer@, e@.session_init) matches Some(session) ==> {
                &&& ratchet::receive_result(session.ratchet, e@) == Ok::<
                    Seq<u8>,
                    ratchet::RatchetError,
                >(text@)
                &&& after.sessions[peer@] == state::received(
                    session,
                    e@.counter,
                    after.sessions[peer@].last_used_at,
                )
                &&& after.prekeys == before.prekeys
            }
        },
{
    if e@.sender_id == peer@ {
        if manager::read_outcome(
            before,
            after,
            store_before,
            store_after,
            peer,
            e@,
            bundles,
            result,
        ) {
            read_outcome_facts(
                before,
                after,
                store_before,
                store_after,
                peer,
                e@,
                bundles,
                Seq::empty(),
                result,
            );
        }
    }
}

/// A message that can be read is read: one that every key of the sender
/// verifies, over the session in memory, the one that it announces, or the
/// stored one, as long as the store works.
pub proof fn reading_succeeds<B: PreKeyBundleSource, I: PeerIdentitySource>(
    before: ManagerModel,
    after: ManagerModel,
    store_before: StoreModel,
    store_after: StoreModel,
    peer: UserId,
    e: EncryptedEnvelope,
    bundles: B,
    identities: I,
    plaintext: Seq<u8>,
    result: Result<Vec<u8>, MessengerError>,
)
    requires
        manager::decrypt_outcome(
            before,
            after,
            store_before,
            store_after,
            peer,
            e,
            bundles,
            identities,
            result,
        ),
        surely_from_peer(peer@, e@, identities),
        store_before.dependable,
        readable(before, store_before, peer@, e@, bundles, plaintext),
    ensures
        result matches Ok(text) && text@ == plaintext,
{
    let key = choose|key: Result<[u8; 32], MessengerError>|
        {
            &&& #[trigger] manager::identity_answer(identities, peer@, key)
            &&& match manager::signature_verdict(peer, e@, key) {
                Err(error) => {
                    &&& after == before
                    &&& store_after == store_before
                    &&& result == Err::<Vec<u8>, _>(error)
                },
                Ok(_) => manager::read_outcome(
                    before,
                    after,
                    store_before,
                    store_after,
                    peer,
                    e@,
                    bundles,
                    result,
                ),
            }
        };
    assert(identities.vouches(peer@, key->Ok_0@));
    read_outcome_facts(
        before,
        after,
        store_before,
        store_after,
        peer,
        e@,
        bundles,
        plaintext,
        result,
    );
}

/// An eviction forgets nothing that is stored: a session whose state the
/// store holds is found again, in memory or in the store, and so it is by a
/// manager that has just started.
pub proof fn stored_sessions_are_found_again(
    before: ManagerModel,
    evicted: ManagerModel,
    store: StoreModel,
    peer: Seq<char>,
    now: u64,
    max_idle_secs: u64,
)
    requires
        manager::in_step(before, store, peer),
        evicted.sessions == manager::kept_sessions(before.sessions, now, max_idle_secs)
            || evicted.sessions == Map::<Seq<char>, SessionModel>::empty(),
    ensures
        manager::found_session(evicted, store, peer) == Some(before.sessions[peer])
            || manager::found_session(evicted, store, peer) == Some(
            session_store::saved(before.sessions[peer]),
        ),
{
}

/// A conversation goes on after an eviction or a restart. The session is gone
/// from memory and the store holds its state: the peer's next messages are
/// read, and both halves stay paired.
pub proof fn stored_sessions_go_on<B: PreKeyBundleSource, I: PeerIdentitySource>(
    theirs: SessionModel,
    mine: SessionModel,
    there: Seq<u8>,
    back: Seq<u8>,
    before: ManagerModel,
    after: ManagerModel,
    store_before: StoreModel,
    store_after: StoreModel,
    peer: UserId,
    e: EncryptedEnvelope,
    bundles: B,
    identities: I,
    plaintext: Seq<u8>,
    result: Result<Vec<u8>, MessengerError>,
)
    requires
        manager::paired(theirs, mine, there, back),
        !before.sessions.dom().contains(peer@),
        store_before.stored.dom().contains(peer@),
        store_before.stored[peer@] == session_store::saved(mine),
        store_before.dependable,
        state::can_receive(mine),
        ratchet::carries(e@, theirs.ratchet, plaintext),
        e@.session_init is None,
        mine.ratchet.recv_counter < e@.counter <= mine.ratchet.recv_counter + ratchet::MAX_SKIP,
        surely_from_peer(peer@, e@, identities),
        manager::decrypt_outcome(
            before,
            after,
            store_before,
            store_after,
            peer,
            e,
            bundles,
            identities,
            result,
        ),
    ensures
        result matches Ok(text) && text@ == plaintext,
        manager::paired(
            state::sent(theirs, theirs.last_used_at),
            after.sessions[peer@],
            there,
            back,
        ),
        manager::in_step(after, store_after, peer@),
{
    let reloaded = session_store::saved(mine);
    assert(ratchet::follows(reloaded.ratchet, there));
    assert(ratchet::leads(reloaded.ratchet, back));
    ratchet::message_is_delivered(theirs.ratchet, reloaded.ratchet, there, e@, plaintext);
    reading_succeeds(
        before,
        after,
        store_before,
        store_after,
        peer,
        e,
        bundles,
        identities,
        plaintext,
        result,
    );
    read_messages_are_in_order(
        before,
        after,
        store_before,
        store_after,
        peer,
        e,
        bundles,
        identities,
        result,
    );
    ratchet::sending_keeps_both_chains(theirs.ratchet, there, back);
    ratchet::receiving_keeps_both_chains(reloaded.ratchet, back, there, e@.counter);
}

/// Whether a source stands for a user's identity: it knows the user, and
/// gives out the user's own key and no other.
pub open spec fn stands_for<I: PeerIdentitySource>(identities: I, user: IdentityModel) -> bool {
    &&& identities.knows(user.name)
    &&& forall|key: [u8; 32]| #[trigger]
        identities.vouches(user.name, key@) ==> key@ == user.public
}

/// Whether two users can hear each other: they hold the two halves of one
/// session, in memory or stored, with the key of the next message available;
/// or the sender holds none and the receiver has none in memory, and each
/// finds what the other published.
pub open spec fn in_touch<B: PreKeyBundleSource, C: PreKeyBundleSource>(
    alice: ManagerModel,
    alice_store: StoreModel,
    alice_finds: B,
    bob: ManagerModel,
    bob_store: StoreModel,
    bob_finds: C,
    bob_name: Seq<char>,
    there: Seq<u8>,
    back: Seq<u8>,
) -> bool {
    match manager::found_session(alice, alice_store, bob_name) {
        Some(hers) => {
            &&& manager::found_session(bob, bob_store, alice.me.name) matches Some(his)
            &&& manager::paired(hers, his, there, back)
            &&& state::can_receive(his)
            &&& hers.ratchet.send_counter < u32::MAX
            &&& ratchet::key_available(his.ratchet, (hers.ratchet.send_counter + 1) as u32)
        },
        None => {
            &&& !bob.sessions.dom().contains(alice.me.name)
            &&& forall|bundle: PreKeyBundle, ephemeral: Seq<u8>| #[trigger]
                alice_finds.publishes(bob_name, bundle) ==> x3dh::owns_bundle(
                    bundle,
                    bob.x3dh_identity,
                    bob.signed_prekey,
                    manager::used_prekey(bob, #[trigger] manager::announced(bundle, ephemeral)),
                )
            &&& bob_finds.knows(alice.me.name)
            &&& forall|bundle: PreKeyBundle| #[trigger]
                bob_finds.publishes(alice.me.name, bundle) ==> bundle.identity_key@
                    == suite::x25519_public(alice.x3dh_identity)
        },
    }
}

/// What one user sends the other reads: an envelope that a manager seals for a
/// user is opened by that user's manager to the same text, under the sender's
/// name. So it is over an established session, also where one or both halves
/// have to be taken from the store, and so it is for the first message to a
/// stranger.
pub proof fn sent_messages_are_read<
    B: PreKeyBundleSource,
    I: PeerIdentitySource,
    C: PreKeyBundleSource,
    J: PeerIdentitySource,
>(
    alice: ManagerModel,
    alice_after: ManagerModel,
    alice_store: StoreModel,
    alice_store_after: StoreModel,
    alice_finds: B,
    alice_knows: I,
    bob: ManagerModel,
    bob_after: ManagerModel,
    bob_store: StoreModel,
    bob_store_after: StoreModel,
    bob_finds: C,
    bob_knows: J,
    bob_name: UserId,
    there: Seq<u8>,
    back: Seq<u8>,
    plaintext: Seq<u8>,
    e: EncryptedEnvelope,
    payload: Seq<u8>,
    opened: Result<(UserId, Vec<u8>), MessengerError>,
)
    requires
        alice.me.wf(),
        manager::encrypt_outcome(
            alice,
            alice_after,
            alice_store,
            alice_store_after,
            bob_name,
            plaintext,
            alice_finds,
            alice_knows,
            Ok(e),
        ),
        in_touch(
            alice,
            alice_store,
            alice_finds,
            bob,
            bob_store,
            bob_finds,
            bob_name@,
            there,
            back,
        ),
        stands_for(bob_knows, alice.me),
        bob_store.dependable,
        wire::parse_envelope(payload) == Some(e@),
        manager::message_outcome(
            bob,
            bob_after,
            bob_store,
            bob_store_after,
            payload,
            bob_finds,
            bob_knows,
            opened,
        ),
    ensures
        opened matches Ok(message) && message.0@ == alice.me.name && message.1@ == plaintext,
{
    sent_messages_are_in_order(
        alice,
        alice_after,
        alice_store,
        alice_store_after,
        bob_name,
        plaintext,
        alice_finds,
        alice_knows,
        Ok(e),
    );
    let (found, read) = choose|found: EncryptedEnvelope, read: Result<Vec<u8>, MessengerError>|
        {
            &&& found@ == e@
            &&& #[trigger] manager::decrypt_outcome(
                bob,
                bob_after,
                bob_store,
                bob_store_after,
                found.sender_id,
                found,
                bob_finds,
                bob_knows,
                read,
            )
            &&& match read {
                Ok(p) => opened matches Ok(r) && r.0@ == e@.sender_id && r.1 == p,
                Err(error) => opened == Err::<(UserId, Vec<u8>), _>(error),
            }
        };
    assert(found.sender_id@ == alice.me.name);
    assert(surely_from_peer(alice.me.name, found@, bob_knows));
    match manager::found_session(alice, alice_store, bob_name@) {
        Some(hers) => {
            let his = manager::found_session(bob, bob_store, alice.me.name)->Some_0;
            ratchet::message_is_delivered(hers.ratchet, his.ratchet, there, e@, plaintext);
        },
        None => {
            let init = e@.session_init->Some_0;
            let session = choose|session: SessionModel|
                {
                    &&& #[trigger] contact_vouched(
                        alice,
                        bob_name@,
                        session,
                        init,
                        alice_finds,
                        alice_knows,
                    )
                    &&& ratchet::carries(e@, session.ratchet, plaintext)
                    &&& alice_after.sessions[bob_name@] == state::sent(
                        session,
                        alice_after.sessions[bob_name@].last_used_at,
                    )
                };
            let (bundle, key) = choose|bundle: PreKeyBundle, key: [u8; 32]|
                {
                    &&& #[trigger] alice_finds.publishes(bob_name@, bundle)
                    &&& #[trigger] alice_knows.vouches(bob_name@, key@)
                    &&& manager::bundle_signed(bundle, key@)
                    &&& manager::set_up(alice, bob_name@, bundle, session, init)
                };
            let root = choose|root: Seq<u8>|
                {
                    &&& session == state::fresh(
                        bob_name@,
                        SessionOrigin::Initiated,
                        root,
                        session.created_at,
                    )
                    &&& #[trigger] x3dh::responder_agrees(
                        root,
                        bundle,
                        suite::x25519_public(alice.x3dh_identity),
                        init.ephemeral_key,
                    )
                };
            assert(init == manager::announced(bundle, init.ephemeral_key));
            manager::first_message_is_read(
                alice,
                bob,
                bob_name@,
                bundle,
                root,
                init,
                e@,
                plaintext,
                session.created_at,
                0,
            );
        },
    }
    reading_succeeds(
        bob,
        bob_after,
        bob_store,
        bob_store_after,
        found.sender_id,
        found,
        bob_finds,
        bob_knows,
        plaintext,
        read,
    );
}

/// Whether a text under a name is the message in a payload: the payload is an
/// envelope that bears the name, a key that the source vouches for under that
/// name verifies its signature, and its ciphertext opens to the text.
pub open spec fn heard<I: PeerIdentitySource>(
    payload: Seq<u8>,
    identities: I,
    from: Seq<char>,
    text: Seq<u8>,
) -> bool {
    &&& wire::parse_envelope(payload) matches Some(e)
    &&& e.sender_id == from
    &&& exists|key: [u8; 32]|
        {
            &&& #[trigger] identities.vouches(from, key@)
            &&& e.sender_signature.len() == 64
            &&& suite::ed25519_verifies(key@, e.signable(), e.sender_signature)
        }
    &&& exists|key: Seq<u8>| #[trigger] suite::opened(key, e.nonce, e.ciphertext) == Some(text)
}

/// Each message is handed over under the name of its own sender: what is read
/// from a payload is the text of the envelope in it, and the name is the one
/// that its signature proves.
pub proof fn messages_name_their_senders<B: PreKeyBundleSource, I: PeerIdentitySource>(
    before: ManagerModel,
    after: ManagerModel,
    store_before: StoreModel,
    store_after: StoreModel,
    payload: Seq<u8>,
    bundles: B,
    identities: I,
    result: Result<(UserId, Vec<u8>), MessengerError>,
)
    requires
        manager::message_outcome(
            before,
            after,
            store_before,
            store_after,
            payload,
            bundles,
            identities,
            result,
        ),
        result is Ok,
    ensures
        heard(payload, identities, result->Ok_0.0@, result->Ok_0.1@),
{
    let m = wire::parse_envelope(payload)->Some_0;
    let (e, opened) = choose|e: EncryptedEnvelope, opened: Result<Vec<u8>, MessengerError>|
        {
            &&& e@ == m
            &&& #[trigger] manager::decrypt_outcome(
                before,
                after,
                store_before,
                store_after,
                e.sender_id,
                e,
                bundles,
                identities,
                opened,
            )
            &&& match opened {
                Ok(p) => result matches Ok(r) && r.0@ == m.sender_id && r.1 == p,
                Err(error) => result == Err::<(UserId, Vec<u8>), _>(error),
            }
        };
    only_the_sender_is_heard(
        before,
        after,
        store_before,
        store_after,
        e.sender_id,
        e,
        bundles,
        identities,
        opened,
    );
    let key = choose|key: [u8; 32]|
        #[trigger] identities.vouches(m.sender_id, key@) && identity::signature_accepted(
            key@,
            m.signable(),
            m.sender_signature,
        );
    assert(identities.vouches(m.sender_id, key@));
    let found = choose|key: Result<[u8; 32], MessengerError>|
        {
            &&& #[trigger] manager::identity_answer(identities, m.sender_id, key)
            &&& match manager::signature_verdict(e.sender_id, e@, key) {
                Err(error) => {
                    &&& after == before
                    &&& store_after == store_before
                    &&& opened == Err::<Vec<u8>, _>(error)
                },
                Ok(_) => manager::read_outcome(
                    before,
                    after,
                    store_before,
                    store_after,
                    e.sender_id,
                    e@,
                    bundles,
                    opened,
                ),
            }
        };
    assert(manager::read_outcome(
        before,
        after,
        store_before,
        store_after,
        e.sender_id,
        e@,
        bundles,
        opened,
    ));
    let (ready, store_ready, prepared) = choose|
        ready: ManagerModel,
        store_ready: StoreModel,
        prepared: Result<(), MessengerError>,
    |
        {
            &&& #[trigger] manager::ready_to_read(
                before,
                ready,
                store_before,
                store_ready,
                e.sender_id,
                m.session_init,
                bundles,
                prepared,
            )
            &&& match prepared {
                Err(error) => {
                    &&& after == ready
                    &&& store_after == store_ready
                    &&& opened == Err::<Vec<u8>, _>(error)
                },
                Ok(_) => manager::open_and_store(
                    ready,
                    after,
                    store_ready,
                    store_after,
                    e.sender_id,
                    m,
                    opened,
                ),
            }
        };
    let text = choose|text: Result<Vec<u8>, MessengerError>|
        {
            &&& #[trigger] manager::open_outcome(ready, after, e.sender_id, m, text)
            &&& match text {
                Err(error) => store_after == store_ready && opened == Err::<Vec<u8>, _>(error),
                Ok(plaintext) => exists|kept: Result<(), MessengerError>|
                    {
                        &&& #[trigger] manager::save_answer(
                            store_ready,
                            store_after,
                            m.sender_id,
                            after.sessions[m.sender_id],
                            kept,
                        )
                        &&& opened == match kept {
                            Ok(_) => Ok::<Vec<u8>, MessengerError>(plaintext),
                            Err(error) => Err(error),
                        }
                    },
            }
        };
    assert(manager::open_outcome(ready, after, e.sender_id, m, text));
    let session = ready.sessions[m.sender_id];
    assert(suite::opened(
        ratchet::receive_key(session.ratchet, m.counter),
        m.nonce,
        m.ciphertext,
    ) == Some(result->Ok_0.1@));
}

/// Whether a payload carries a message that is sure to be read to a text: it is
/// an envelope that every key vouched for under its sender's name verifies, and
/// it can be read.
pub open spec fn arrives<B: PreKeyBundleSource, I: PeerIdentitySource>(
    m: ManagerModel,
    store: StoreModel,
    payload: Seq<u8>,
    bundles: B,
    identities: I,
    text: Seq<u8>,
) -> bool {
    &&& wire::parse_envelope(payload) matches Some(e)
    &&& surely_from_peer(e.sender_id, e, identities)
    &&& readable(m, store, e.sender_id, e, bundles, text)
}

} // verus!
