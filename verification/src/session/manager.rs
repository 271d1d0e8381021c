//! The entry point to end-to-end encryption: finds or sets up the session
//! with a peer, encrypts and signs what goes out, verifies and decrypts what
//! comes in.
use vstd::prelude::*;

use crate::bytes;
use crate::clock;
use crate::crypto;
use crate::crypto::ratchet;
use crate::crypto::suite;
use crate::crypto::x3dh;
use crate::crypto::x3dh::{PreKeyBundle, X3dhSession};
use crate::crypto::{EncryptedEnvelope, EnvelopeModel, InitModel, SessionInit};
use crate::errors::{CryptoError, MessengerError, WireFault};
use crate::identity;
use crate::identity::{Identity, IdentityModel};
use crate::protocol;
use crate::protocol::{Packet, PacketType};
use crate::session::laws;
use crate::session::state;
use crate::session::state::{Session, SessionModel, SessionOrigin};
use crate::storage::session_store;
use crate::storage::session_store::{SessionStore, StoreModel};
use crate::table::Table;
use crate::types::{SessionId, UserId};
use crate::wire;
use vstd::utf8;

verus! {

/// Where the published prekeys of other users come from. A source whose code
/// is not verified implements the method alone.
pub trait PreKeyBundleSource {
    /// Whether the source may give a bundle out as a user's.
    open spec fn publishes(&self, user: Seq<char>, bundle: PreKeyBundle) -> bool {
        true
    }

    /// Whether the source is sure to have a bundle of a user.
    open spec fn knows(&self, user: Seq<char>) -> bool {
        false
    }

    /// The prekeys that a user published.
    fn fetch_bundle(&self, peer: &UserId) -> (result: Result<PreKeyBundle, MessengerError>)
        ensures
            result matches Ok(bundle) ==> self.publishes(peer@, bundle),
            self.knows(peer@) ==> result is Ok,
    ;
}

/// Where the Ed25519 keys of other users come from. A source whose code is
/// not verified implements the method alone.
pub trait PeerIdentitySource {
    /// Whether the source may give a key out as a user's.
    open spec fn vouches(&self, user: Seq<char>, key: Seq<u8>) -> bool {
        true
    }

    /// Whether the source is sure to have a key of a user.
    open spec fn knows(&self, user: Seq<char>) -> bool {
        false
    }

    /// The key that verifies a user's signatures.
    fn fetch_identity_key(&self, peer: &UserId) -> (result: Result<[u8; 32], MessengerError>)
        ensures
            result matches Ok(key) ==> self.vouches(peer@, key@),
            self.knows(peer@) ==> result is Ok,
    ;
}

/// What a session manager consists of.
#[verifier::ext_equal]
pub struct ManagerModel {
    /// The sessions in memory, by peer.
    pub sessions: Map<Seq<char>, SessionModel>,
    /// The secret of this node's key-agreement identity.
    pub x3dh_identity: Seq<u8>,
    /// The secret of this node's signed prekey.
    pub signed_prekey: Seq<u8>,
    /// The secrets of this node's unused one-time prekeys, by public key.
    pub prekeys: Map<Seq<u8>, Seq<u8>>,
    /// This node's signing identity.
    pub me: IdentityModel,
}

/// The sessions with all users, and the keys to set up more.
pub struct SessionManager {
    sessions: Table<UserId, Session>,
    x3dh_identity: [u8; 32],
    our_signed_prekey: [u8; 32],
    one_time_prekeys: Table<[u8; 32], [u8; 32]>,
    my_identity: Identity,
}

impl View for SessionManager {
    type V = ManagerModel;

    closed spec fn view(&self) -> ManagerModel {
        ManagerModel {
            sessions: self.sessions@.map_values(|s: Session| s@),
            x3dh_identity: self.x3dh_identity@,
            signed_prekey: self.our_signed_prekey@,
            prekeys: self.one_time_prekeys@.map_values(|k: [u8; 32]| k@),
            me: self.my_identity@,
        }
    }
}

/// The pool that holds the first `count` of some one-time prekey secrets,
/// each under its public key.
pub open spec fn prekey_pool(secrets: Seq<[u8; 32]>, count: nat) -> Map<Seq<u8>, Seq<u8>>
    decreases count,
{
    if count == 0 {
        Map::empty()
    } else {
        let last = secrets[count - 1]@;
        prekey_pool(secrets, (count - 1) as nat).insert(suite::x25519_public(last), last)
    }
}

/// A pool holds the secret of each of its public keys, and each of the secrets
/// it was made from under the secret's own public key.
proof fn pools_hold_their_secrets(secrets: Seq<[u8; 32]>, count: nat)
    requires
        count <= secrets.len(),
    ensures
        forall|i: int|
            0 <= i < count ==> prekey_pool(secrets, count).dom().contains(
                suite::x25519_public((#[trigger] secrets[i])@),
            ),
        forall|public: Seq<u8>| #[trigger]
            prekey_pool(secrets, count).dom().contains(public) ==> suite::x25519_public(
                prekey_pool(secrets, count)[public],
            ) == public,
    decreases count,
{
    if count > 0 {
        let before = prekey_pool(secrets, (count - 1) as nat);
        let last = secrets[count - 1]@;
        pools_hold_their_secrets(secrets, (count - 1) as nat);
        assert(prekey_pool(secrets, count) == before.insert(suite::x25519_public(last), last));
        assert forall|i: int| 0 <= i < count implies prekey_pool(secrets, count).dom().contains(
            suite::x25519_public((#[trigger] secrets[i])@),
        ) by {
            if i < count - 1 {
                assert(before.dom().contains(suite::x25519_public(secrets[i]@)));
            }
        }
        assert forall|public: Seq<u8>| #[trigger]
            prekey_pool(secrets, count).dom().contains(public) implies suite::x25519_public(
            prekey_pool(secrets, count)[public],
        ) == public by {
            if public != suite::x25519_public(last) {
                assert(before.dom().contains(public));
            }
        }
    }
}

/// Whether an envelope bears the name of an identity and a signature that
/// Ed25519 verifies under its public key.
pub open spec fn bears_signature(e: EnvelopeModel, me: IdentityModel) -> bool {
    &&& e.sender_id == me.name
    &&& e.sender_signature.len() == 64
    &&& suite::ed25519_verifies(
        suite::ed25519_public(me.secret),
        e.signable(),
        e.sender_signature,
    )
}

/// Whether a new session rests on prekeys that their owner signed: a source
/// publishes them for the peer, and Ed25519 verifies the signature under a key
/// that the other source vouches for.
pub open spec fn contact_proved<B: PreKeyBundleSource, I: PeerIdentitySource>(
    peer: Seq<char>,
    bundles: B,
    identities: I,
) -> bool {
    exists|bundle: PreKeyBundle, key: [u8; 32]|
        {
            &&& #[trigger] bundles.publishes(peer, bundle)
            &&& #[trigger] identities.vouches(peer, key@)
            &&& bundle.signed_prekey_signature@.len() == 64
            &&& suite::ed25519_verifies(
                key@,
                bundle.signed_prekey@,
                bundle.signed_prekey_signature@,
            )
        }
}

/// Whether an envelope bears this identity's name and signature and the
/// given session parameters.
pub open spec fn stamped(e: EnvelopeModel, me: IdentityModel, init: Option<InitModel>) -> bool {
    &&& e.sender_id == me.name
    &&& e.session_init == init
    &&& e.sender_signature == suite::ed25519_sign(me.secret, e.signable())
    &&& identity::signature_accepted(
        suite::ed25519_public(me.secret),
        e.signable(),
        e.sender_signature,
    )
}

/// The manager with the session of one peer set.
pub open spec fn with_session(
    m: ManagerModel,
    peer: Seq<char>,
    session: SessionModel,
) -> ManagerModel {
    ManagerModel { sessions: m.sessions.insert(peer, session), ..m }
}

/// How encrypting a message over the session with a peer ends.
pub open spec fn seal_outcome(
    before: ManagerModel,
    after: ManagerModel,
    peer: UserId,
    plaintext: Seq<u8>,
    init: Option<InitModel>,
    result: Result<EncryptedEnvelope, MessengerError>,
) -> bool {
    if !before.sessions.dom().contains(peer@) {
        after == before && result == Err::<EncryptedEnvelope, _>(MessengerError::NoSession(peer))
    } else {
        let session = before.sessions[peer@];
        if !state::can_send(session) {
            after == before && result == Err::<EncryptedEnvelope, _>(
                MessengerError::SessionExhausted(peer),
            )
        } else if plaintext.len() > suite::MAX_PLAINTEXT {
            after == with_session(before, peer@, state::send_failed(session)) && result == Err::<
                EncryptedEnvelope,
                _,
            >(
                MessengerError::Crypto(
                    CryptoError::Ratchet(ratchet::RatchetError::EncryptionFailed),
                ),
            )
        } else {
            &&& after == with_session(
                before,
                peer@,
                state::sent(session, after.sessions[peer@].last_used_at),
            )
            &&& clock::told(after.sessions[peer@].last_used_at)
            &&& result matches Ok(e)
            &&& suite::drawn_nonce(e@.nonce)
            &&& stamped(e@, before.me, init)
            &&& ratchet::carries(e@, session.ratchet, plaintext)
        }
    }
}

/// How decrypting a message over the session with a peer ends.
pub open spec fn open_outcome(
    before: ManagerModel,
    after: ManagerModel,
    peer: UserId,
    e: EnvelopeModel,
    result: Result<Vec<u8>, MessengerError>,
) -> bool {
    if !before.sessions.dom().contains(peer@) {
        after == before && result == Err::<Vec<u8>, _>(MessengerError::NoSession(peer))
    } else {
        let session = before.sessions[peer@];
        if !state::can_receive(session) {
            after == before && result == Err::<Vec<u8>, _>(MessengerError::SessionExhausted(peer))
        } else {
            match ratchet::receive_result(session.ratchet, e) {
                Ok(p) => {
                    &&& after == with_session(
                        before,
                        peer@,
                        state::received(session, e.counter, after.sessions[peer@].last_used_at),
                    )
                    &&& clock::told(after.sessions[peer@].last_used_at)
                    &&& result matches Ok(v)
                    &&& v@ == p
                },
                Err(error) => {
                    &&& after == with_session(
                        before,
                        peer@,
                        state::receive_failed(session, e.counter),
                    )
                    &&& result == Err::<Vec<u8>, _>(
                        MessengerError::Crypto(CryptoError::Ratchet(error)),
                    )
                },
            }
        }
    }
}

/// The secret of the one-time prekey that a first message used, if it is
/// still in the pool.
pub open spec fn used_prekey(m: ManagerModel, init: InitModel) -> Option<Seq<u8>> {
    match init.one_time_prekey_public {
        Some(public) => if m.prekeys.dom().contains(public) {
            Some(m.prekeys[public])
        } else {
            None
        },
        None => None,
    }
}

/// The pool once the one-time prekey of a first message was taken out.
pub open spec fn pool_after(m: ManagerModel, init: InitModel) -> Map<Seq<u8>, Seq<u8>> {
    match init.one_time_prekey_public {
        Some(public) => m.prekeys.remove(public),
        None => m.prekeys,
    }
}

/// The secret that this node agrees on with the initiator of a session.
pub open spec fn accepted_root(m: ManagerModel, init: InitModel, peer_identity: Seq<u8>) -> Seq<
    u8,
> {
    x3dh::responder_secret(
        m.x3dh_identity,
        m.signed_prekey,
        used_prekey(m, init),
        peer_identity,
        init.ephemeral_key,
    )
}

/// The session parameters that announce a session over a bundle.
pub open spec fn announced(bundle: PreKeyBundle, ephemeral_public: Seq<u8>) -> InitModel {
    InitModel {
        ephemeral_key: ephemeral_public,
        one_time_prekey_public: crypto::key_model(bundle.one_time_prekey),
    }
}

/// Whether an answer about a user's key is one that the source gives.
pub open spec fn identity_answer<I: PeerIdentitySource>(
    identities: I,
    user: Seq<char>,
    answer: Result<[u8; 32], MessengerError>,
) -> bool {
    &&& answer matches Ok(key) ==> identities.vouches(user, key@)
    &&& identities.knows(user) ==> answer is Ok
}

/// Whether an answer about a user's prekeys is one that the source gives.
pub open spec fn bundle_answer<B: PreKeyBundleSource>(
    bundles: B,
    user: Seq<char>,
    answer: Result<PreKeyBundle, MessengerError>,
) -> bool {
    &&& answer matches Ok(bundle) ==> bundles.publishes(user, bundle)
    &&& bundles.knows(user) ==> answer is Ok
}

/// Whether an answer about a stored session is one that the store gives.
pub open spec fn load_answer(
    store: StoreModel,
    peer: Seq<char>,
    answer: Result<Option<Session>, MessengerError>,
) -> bool {
    &&& answer matches Ok(found) ==> (match found {
        Some(session) => store.stored.dom().contains(peer) && session@ == store.stored[peer],
        None => !store.stored.dom().contains(peer),
    })
    &&& store.dependable ==> answer is Ok
}

/// Whether a store answers as it does to storing the session with a peer.
pub open spec fn save_answer(
    before: StoreModel,
    after: StoreModel,
    peer: Seq<char>,
    session: SessionModel,
    answer: Result<(), MessengerError>,
) -> bool {
    &&& answer is Ok ==> after.stored == before.stored.insert(peer, session_store::saved(session))
    &&& answer is Err ==> after.stored == before.stored
    &&& before.dependable ==> answer is Ok && after.dependable
}

/// The verdict on an envelope's signature under the key that was found for
/// its sender.
pub open spec fn signature_verdict(
    peer: UserId,
    e: EnvelopeModel,
    key: Result<[u8; 32], MessengerError>,
) -> Result<(), MessengerError> {
    match key {
        Ok(k) => if identity::signature_accepted(k@, e.signable(), e.sender_signature) {
            Ok(())
        } else {
            Err(MessengerError::InvalidMessageSignature(peer))
        },
        Err(_) => Err(MessengerError::IdentityKeyNotFound(peer)),
    }
}

/// Whether a bundle's prekey is signed under a key.
pub open spec fn bundle_signed(bundle: PreKeyBundle, key: Seq<u8>) -> bool {
    identity::signature_accepted(key, bundle.signed_prekey@, bundle.signed_prekey_signature@)
}

/// The verdict on a bundle's signature under the key that was found for its
/// owner.
pub open spec fn bundle_verdict(
    peer: UserId,
    bundle: PreKeyBundle,
    key: Result<[u8; 32], MessengerError>,
) -> Result<(), MessengerError> {
    match key {
        Ok(k) => if bundle_signed(bundle, k@) {
            Ok(())
        } else {
            Err(MessengerError::InvalidPreKeySignature(peer))
        },
        Err(_) => Err(MessengerError::IdentityKeyNotFound(peer)),
    }
}

/// The session with a peer: the one in memory, or else the stored one.
pub open spec fn found_session(
    m: ManagerModel,
    store: StoreModel,
    peer: Seq<char>,
) -> Option<SessionModel> {
    if m.sessions.dom().contains(peer) {
        Some(m.sessions[peer])
    } else if store.stored.dom().contains(peer) {
        Some(store.stored[peer])
    } else {
        None
    }
}

/// The session over which a message from a peer is read, where there is one
/// already: the one in memory, or else the stored one, unless the message
/// announces a new session.
pub open spec fn session_to_read(
    m: ManagerModel,
    store: StoreModel,
    peer: Seq<char>,
    init: Option<InitModel>,
) -> Option<SessionModel> {
    if m.sessions.dom().contains(peer) || init is None {
        found_session(m, store, peer)
    } else {
        None
    }
}

/// Whether a secret is what this node agrees on with the owner of a bundle
/// under a fresh ephemeral key.
pub open spec fn agreed_over(
    m: ManagerModel,
    bundle: PreKeyBundle,
    ephemeral_public: Seq<u8>,
    root: Seq<u8>,
) -> bool {
    exists|ephemeral: Seq<u8>|
        {
            &&& suite::drawn_key(ephemeral)
            &&& ephemeral_public == suite::x25519_public(ephemeral)
            &&& root == #[trigger] x3dh::initiator_secret(m.x3dh_identity, ephemeral, bundle)
        }
}

/// Whether a session with a peer is new and was set up over a bundle as the
/// parameters that announce it say: the owner of the bundle arrives at the
/// same secret.
pub open spec fn set_up(
    m: ManagerModel,
    peer: Seq<char>,
    bundle: PreKeyBundle,
    session: SessionModel,
    init: InitModel,
) -> bool {
    &&& init == announced(bundle, init.ephemeral_key)
    &&& clock::told(session.created_at)
    &&& exists|root: Seq<u8>|
        {
            &&& session == state::fresh(peer, SessionOrigin::Initiated, root, session.created_at)
            &&& agreed_over(m, bundle, init.ephemeral_key, root)
            &&& #[trigger] x3dh::responder_agrees(
                root,
                bundle,
                suite::x25519_public(m.x3dh_identity),
                init.ephemeral_key,
            )
        }
}

/// How setting up a session with a stranger ends: over a bundle that the
/// source publishes for the peer, if it is signed under a key that the other
/// source vouches for.
pub open spec fn first_contact<B: PreKeyBundleSource, I: PeerIdentitySource>(
    before: ManagerModel,
    after: ManagerModel,
    store_before: StoreModel,
    store_after: StoreModel,
    peer: UserId,
    bundles: B,
    identities: I,
    result: Result<Option<SessionInit>, MessengerError>,
) -> bool {
    exists|published: Result<PreKeyBundle, MessengerError>|
        {
            &&& #[trigger] bundle_answer(bundles, peer@, published)
            &&& match published {
                Err(e) => {
                    &&& after == before
                    &&& store_after == store_before
                    &&& result == Err::<Option<SessionInit>, _>(e)
                },
                Ok(bundle) => exists|key: Result<[u8; 32], MessengerError>|
                    {
                        &&& #[trigger] identity_answer(identities, peer@, key)
                        &&& match bundle_verdict(peer, bundle, key) {
                            Err(e) => {
                                &&& after == before
                                &&& store_after == store_before
                                &&& result == Err::<Option<SessionInit>, _>(e)
                            },
                            Ok(_) => contact_stored(
                                before,
                                after,
                                store_before,
                                store_after,
                                peer@,
                                bundle,
                                result,
                            ),
                        }
                    },
            }
        }
}

/// How setting up a session over an accepted bundle ends.
pub open spec fn contact_stored(
    before: ManagerModel,
    after: ManagerModel,
    store_before: StoreModel,
    store_after: StoreModel,
    peer: Seq<char>,
    bundle: PreKeyBundle,
    result: Result<Option<SessionInit>, MessengerError>,
) -> bool {
    exists|session: SessionModel, init: InitModel, kept: Result<(), MessengerError>|
        {
            &&& #[trigger] set_up(before, peer, bundle, session, init)
            &&& #[trigger] save_answer(store_before, store_after, peer, session, kept)
            &&& match kept {
                Ok(_) => {
                    &&& after == with_session(before, peer, session)
                    &&& result matches Ok(Some(i))
                    &&& i@ == init
                },
                Err(e) => after == before && result == Err::<Option<SessionInit>, _>(e),
            }
        }
}

/// How making sure of a session to send over ends: the one in memory is
/// taken, or else the stored one, or else a new one is set up. Only a new
/// one has parameters to announce.
pub open spec fn ready_to_send<B: PreKeyBundleSource, I: PeerIdentitySource>(
    before: ManagerModel,
    after: ManagerModel,
    store_before: StoreModel,
    store_after: StoreModel,
    peer: UserId,
    bundles: B,
    identities: I,
    result: Result<Option<SessionInit>, MessengerError>,
) -> bool {
    if before.sessions.dom().contains(peer@) {
        &&& after == before
        &&& store_after == store_before
        &&& result == Ok::<Option<SessionInit>, MessengerError>(None)
    } else {
        exists|loaded: Result<Option<Session>, MessengerError>|
            {
                &&& #[trigger] load_answer(store_before, peer@, loaded)
                &&& match loaded {
                    Err(e) => {
                        &&& after == before
                        &&& store_after == store_before
                        &&& result == Err::<Option<SessionInit>, _>(e)
                    },
                    Ok(Some(session)) => {
                        &&& after == with_session(before, peer@, session@)
                        &&& store_after == store_before
                        &&& result == Ok::<Option<SessionInit>, MessengerError>(None)
                    },
                    Ok(None) => first_contact(
                        before,
                        after,
                        store_before,
                        store_after,
                        peer,
                        bundles,
                        identities,
                        result,
                    ),
                }
            }
    }
}

/// How encrypting a message over the session with a peer and storing the
/// session ends. Where only storing fails, the session in memory has moved
/// on all the same.
pub open spec fn seal_and_store(
    before: ManagerModel,
    after: ManagerModel,
    store_before: StoreModel,
    store_after: StoreModel,
    peer: UserId,
    plaintext: Seq<u8>,
    init: Option<InitModel>,
    result: Result<EncryptedEnvelope, MessengerError>,
) -> bool {
    exists|sealed: Result<EncryptedEnvelope, MessengerError>|
        {
            &&& #[trigger] seal_outcome(before, after, peer, plaintext, init, sealed)
            &&& match sealed {
                Err(e) => store_after == store_before && result == Err::<EncryptedEnvelope, _>(e),
                Ok(envelope) => exists|kept: Result<(), MessengerError>|
                    {
                        &&& #[trigger] save_answer(
                            store_before,
                            store_after,
                            peer@,
                            after.sessions[peer@],
                            kept,
                        )
                        &&& result == match kept {
                            Ok(_) => Ok::<EncryptedEnvelope, MessengerError>(envelope),
                            Err(e) => Err(e),
                        }
                    },
            }
        }
}

/// How encrypting a message for a peer ends, by what the store and the
/// sources answer.
pub open spec fn encrypt_outcome<B: PreKeyBundleSource, I: PeerIdentitySource>(
    before: ManagerModel,
    after: ManagerModel,
    store_before: StoreModel,
    store_after: StoreModel,
    peer: UserId,
    plaintext: Seq<u8>,
    bundles: B,
    identities: I,
    result: Result<EncryptedEnvelope, MessengerError>,
) -> bool {
    exists|
        ready: ManagerModel,
        store_ready: StoreModel,
        prepared: Result<Option<SessionInit>, MessengerError>,
    |
        {
            &&& #[trigger] ready_to_send(
                before,
                ready,
                store_before,
                store_ready,
                peer,
                bundles,
                identities,
                prepared,
            )
            &&& match prepared {
                Err(e) => {
                    &&& after == ready
                    &&& store_after == store_ready
                    &&& result == Err::<EncryptedEnvelope, _>(e)
                },
                Ok(init) => seal_and_store(
                    ready,
                    after,
                    store_ready,
                    store_after,
                    peer,
                    plaintext,
                    crypto::init_model(init),
                    result,
                ),
            }
        }
}

/// How setting up the other half of a session from the parameters in a first
/// message ends: over the identity key in a bundle that the source publishes
/// for the peer. The one-time prekey leaves the pool also where the session
/// cannot be stored.
pub open spec fn accept_outcome<B: PreKeyBundleSource>(
    before: ManagerModel,
    after: ManagerModel,
    store_before: StoreModel,
    store_after: StoreModel,
    peer: Seq<char>,
    init: InitModel,
    bundles: B,
    result: Result<(), MessengerError>,
) -> bool {
    exists|published: Result<PreKeyBundle, MessengerError>|
        {
            &&& #[trigger] bundle_answer(bundles, peer, published)
            &&& match published {
                Err(e) => {
                    &&& after == before
                    &&& store_after == store_before
                    &&& result == Err::<(), _>(e)
                },
                Ok(bundle) => exists|now: u64|
                    {
                        let session = #[trigger] state::fresh(
                            peer,
                            SessionOrigin::Accepted,
                            accepted_root(before, init, bundle.identity_key@),
                            now,
                        );
                        &&& clock::told(now)
                        &&& save_answer(store_before, store_after, peer, session, result)
                        &&& after == ManagerModel {
                            sessions: if result is Ok {
                                before.sessions.insert(peer, session)
                            } else {
                                before.sessions
                            },
                            prekeys: pool_after(before, init),
                            ..before
                        }
                    },
            }
        }
}

/// How making sure of a session to read over ends: the one in memory is
/// taken, or else the other half of the one that a first message announces is
/// set up, or else the stored one is taken.
pub open spec fn ready_to_read<B: PreKeyBundleSource>(
    before: ManagerModel,
    after: ManagerModel,
    store_before: StoreModel,
    store_after: StoreModel,
    peer: UserId,
    init: Option<InitModel>,
    bundles: B,
    result: Result<(), MessengerError>,
) -> bool {
    if before.sessions.dom().contains(peer@) {
        after == before && store_after == store_before && result is Ok
    } else {
        match init {
            Some(i) => accept_outcome(
                before,
                after,
                store_before,
                store_after,
                peer@,
                i,
                bundles,
                result,
            ),
            None => exists|loaded: Result<Option<Session>, MessengerError>|
                {
                    &&& #[trigger] load_answer(store_before, peer@, loaded)
                    &&& store_after == store_before
                    &&& match loaded {
                        Err(e) => after == before && result == Err::<(), _>(e),
                        Ok(Some(session)) => {
                            &&& after == with_session(before, peer@, session@)
                            &&& result is Ok
                        },
                        Ok(None) => {
                            &&& after == before
                            &&& result == Err::<(), _>(MessengerError::NoSession(peer))
                        },
                    }
                },
        }
    }
}

/// How decrypting a message over the session with a peer and storing the
/// session ends. Where only storing fails, the session in memory has moved
/// on all the same.
pub open spec fn open_and_store(
    before: ManagerModel,
    after: ManagerModel,
    store_before: StoreModel,
    store_after: StoreModel,
    peer: UserId,
    e: EnvelopeModel,
    result: Result<Vec<u8>, MessengerError>,
) -> bool {
    exists|opened: Result<Vec<u8>, MessengerError>|
        {
            &&& #[trigger] open_outcome(before, after, peer, e, opened)
            &&& match opened {
                Err(error) => store_after == store_before && result == Err::<Vec<u8>, _>(error),
                Ok(plaintext) => exists|kept: Result<(), MessengerError>|
                    {
                        &&& #[trigger] save_answer(
                            store_before,
                            store_after,
                            peer@,
                            after.sessions[peer@],
                            kept,
                        )
                        &&& result == match kept {
                            Ok(_) => Ok::<Vec<u8>, MessengerError>(plaintext),
                            Err(error) => Err(error),
                        }
                    },
            }
        }
}

/// How decrypting a message whose signature was accepted ends.
pub open spec fn read_outcome<B: PreKeyBundleSource>(
    before: ManagerModel,
    after: ManagerModel,
    store_before: StoreModel,
    store_after: StoreModel,
    peer: UserId,
    e: EnvelopeModel,
    bundles: B,
    result: Result<Vec<u8>, MessengerError>,
) -> bool {
    exists|ready: ManagerModel, store_ready: StoreModel, prepared: Result<(), MessengerError>|
        {
            &&& #[trigger] ready_to_read(
                before,
                ready,
                store_before,
                store_ready,
                peer,
                e.session_init,
                bundles,
                prepared,
            )
            &&& match prepared {
                Err(error) => {
                    &&& after == ready
                    &&& store_after == store_ready
                    &&& result == Err::<Vec<u8>, _>(error)
                },
                Ok(_) => open_and_store(
                    ready,
                    after,
                    store_ready,
                    store_after,
                    peer,
                    e,
                    result,
                ),
            }
        }
}

/// How decrypting a message from a peer ends, by what the store and the
/// sources answer. A message under another name, or one that the key of the
/// sender does not verify, is refused and changes nothing.
pub open spec fn decrypt_outcome<B: PreKeyBundleSource, I: PeerIdentitySource>(
    before: ManagerModel,
    after: ManagerModel,
    store_before: StoreModel,
    store_after: StoreModel,
    peer: UserId,
    e: EncryptedEnvelope,
    bundles: B,
    identities: I,
    result: Result<Vec<u8>, MessengerError>,
) -> bool {
    if e.sender_id@ != peer@ {
        &&& after == before
        &&& store_after == store_before
        &&& result == Err::<Vec<u8>, _>(
            MessengerError::SenderMismatch { claimed: e.sender_id, expected: peer },
        )
    } else {
        exists|key: Result<[u8; 32], MessengerError>|
            {
                &&& #[trigger] identity_answer(identities, peer@, key)
                &&& match signature_verdict(peer, e@, key) {
                    Err(error) => {
                        &&& after == before
                        &&& store_after == store_before
                        &&& result == Err::<Vec<u8>, _>(error)
                    },
                    Ok(_) => read_outcome(
                        before,
                        after,
                        store_before,
                        store_after,
                        peer,
                        e@,
                        bundles,
                        result,
                    ),
                }
            }
    }
}

/// How decrypting the message in a payload ends.
pub open spec fn message_outcome<B: PreKeyBundleSource, I: PeerIdentitySource>(
    before: ManagerModel,
    after: ManagerModel,
    store_before: StoreModel,
    store_after: StoreModel,
    payload: Seq<u8>,
    bundles: B,
    identities: I,
    result: Result<(UserId, Vec<u8>), MessengerError>,
) -> bool {
    match wire::parse_envelope(payload) {
        Some(m) => exists|e: EncryptedEnvelope, opened: Result<Vec<u8>, MessengerError>|
            {
                &&& e@ == m
                &&& #[trigger] decrypt_outcome(
                    before,
                    after,
                    store_before,
                    store_after,
                    e.sender_id,
                    e,
                    bundles,
                    identities,
                    opened,
                )
                &&& match opened {
                    Ok(p) => result matches Ok(r) && r.0@ == m.sender_id && r.1 == p,
                    Err(error) => result == Err::<(UserId, Vec<u8>), _>(error),
                }
            },
        None => {
            &&& after == before
            &&& store_after == store_before
            &&& result == Err::<(UserId, Vec<u8>), _>(
                MessengerError::Serialization(WireFault::Envelope),
            )
        },
    }
}

/// What stays as it was when something happens in the conversation with one
/// peer: this node's keys and the sessions with everybody else, in memory
/// and stored.
pub open spec fn others_unchanged(
    before: ManagerModel,
    after: ManagerModel,
    store_before: StoreModel,
    store_after: StoreModel,
    peer: Seq<char>,
) -> bool {
    &&& after.x3dh_identity == before.x3dh_identity
    &&& after.signed_prekey == before.signed_prekey
    &&& after.me == before.me
    &&& after.sessions.remove(peer) == before.sessions.remove(peer)
    &&& store_after.stored.remove(peer) == store_before.stored.remove(peer)
}

/// Whether the store holds the state of the session in memory with a peer.
pub open spec fn in_step(m: ManagerModel, store: StoreModel, peer: Seq<char>) -> bool {
    &&& m.sessions.dom().contains(peer)
    &&& store.stored.dom().contains(peer)
    &&& store.stored[peer] == session_store::saved(m.sessions[peer])
}

/// Checks that an envelope names the peer it is attributed to.
pub fn check_sender(peer: &UserId, envelope: &EncryptedEnvelope) -> (result: Result<
    (),
    MessengerError,
>)
    ensures
        if envelope.sender_id@ == peer@ {
            result is Ok
        } else {
            result == Err::<(), _>(
                MessengerError::SenderMismatch { claimed: envelope.sender_id, expected: *peer },
            )
        },
{
    if envelope.sender_id == *peer {
        Ok(())
    } else {
        Err(
            MessengerError::SenderMismatch {
                claimed: envelope.sender_id.clone(),
                expected: peer.clone(),
            },
        )
    }
}

/// Checks an envelope's signature under the key that was found for its
/// sender.
pub fn check_signature(
    peer: &UserId,
    envelope: &EncryptedEnvelope,
    verifying_key: Result<[u8; 32], MessengerError>,
) -> (result: Result<(), MessengerError>)
    ensures
        result == signature_verdict(*peer, envelope@, verifying_key),
        result is Ok <==> verifying_key is Ok && envelope.sender_signature@.len() == 64
            && suite::ed25519_verifies(
            verifying_key->Ok_0@,
            envelope@.signable(),
            envelope.sender_signature@,
        ),
{
    match verifying_key {
        Ok(key) => {
            let signed: Vec<u8> = envelope.signable_bytes();
            if Identity::verify_bytes(
                &key,
                signed.as_slice(),
                envelope.sender_signature.as_slice(),
            ) {
                Ok(())
            } else {
                Err(MessengerError::InvalidMessageSignature(peer.clone()))
            }
        },
        Err(_) => Err(MessengerError::IdentityKeyNotFound(peer.clone())),
    }
}

/// Checks that a bundle's signed prekey is signed by its owner, under the
/// key that was found for the owner.
pub fn verify_bundle_signature(
    peer: &UserId,
    bundle: &PreKeyBundle,
    verifying_key: Result<[u8; 32], MessengerError>,
) -> (result: Result<(), MessengerError>)
    ensures
        result == bundle_verdict(*peer, *bundle, verifying_key),
        result is Ok <==> verifying_key is Ok && bundle.signed_prekey_signature@.len() == 64
            && suite::ed25519_verifies(
            verifying_key->Ok_0@,
            bundle.signed_prekey@,
            bundle.signed_prekey_signature@,
        ),
{
    match verifying_key {
        Ok(key) => if Identity::verify_bytes(
            &key,
            bundle.signed_prekey.as_slice(),
            bundle.signed_prekey_signature.as_slice(),
        ) {
            Ok(())
        } else {
            Err(MessengerError::InvalidPreKeySignature(peer.clone()))
        },
        Err(_) => Err(MessengerError::IdentityKeyNotFound(peer.clone())),
    }
}

/// The packet that carries an envelope to its receiver.
pub fn packet_of(envelope: &EncryptedEnvelope) -> (packet: Packet)
    ensures
        packet@ == protocol::plain_packet(
            PacketType::DirectMessage,
            wire::envelope_bytes(envelope@),
        ),
        wire::parse_envelope(packet.encrypted_payload@) == Some(envelope@),
{
    Packet::plain(PacketType::DirectMessage, wire::encode_envelope(envelope))
}

/// The envelope that a packet carries.
pub fn envelope_of(packet: &Packet) -> (envelope: Result<EncryptedEnvelope, MessengerError>)
    ensures
        match wire::parse_envelope(packet.encrypted_payload@) {
            Some(m) => envelope matches Ok(e) && e@ == m,
            None => envelope == Err::<EncryptedEnvelope, _>(
                MessengerError::Serialization(WireFault::Envelope),
            ),
        },
{
    match wire::decode_envelope(packet.encrypted_payload.as_slice()) {
        Some(envelope) => Ok(envelope),
        None => Err(MessengerError::Serialization(WireFault::Envelope)),
    }
}

impl SessionManager {
    /// No peer and no prekey occurs twice, each session is kept under its
    /// own id, and this node's identity is consistent.
    pub closed spec fn wf(&self) -> bool {
        &&& self.sessions.wf()
        &&& forall|peer: Seq<char>| #[trigger]
            self@.sessions.dom().contains(peer) ==> self@.sessions[peer].id == peer
        &&& self.one_time_prekeys.wf()
        &&& self.my_identity@.wf()
    }

    /// A manager without sessions.
    pub fn new(
        x3dh_identity: [u8; 32],
        our_signed_prekey: [u8; 32],
        one_time_prekeys: Vec<[u8; 32]>,
        my_identity: Identity,
    ) -> (manager: Self)
        requires
            my_identity@.wf(),
        ensures
            manager.wf(),
            manager@ == (ManagerModel {
                sessions: Map::empty(),
                x3dh_identity: x3dh_identity@,
                signed_prekey: our_signed_prekey@,
                prekeys: prekey_pool(one_time_prekeys@, one_time_prekeys@.len()),
                me: my_identity@,
            }),
            forall|i: int|
                0 <= i < one_time_prekeys@.len() ==> manager@.prekeys.dom().contains(
                    suite::x25519_public((#[trigger] one_time_prekeys@[i])@),
                ),
            forall|public: Seq<u8>| #[trigger]
                manager@.prekeys.dom().contains(public) ==> suite::x25519_public(
                    manager@.prekeys[public],
                ) == public,
    {
        proof {
            pools_hold_their_secrets(one_time_prekeys@, one_time_prekeys@.len());
        }
        let mut pool: Table<[u8; 32], [u8; 32]> = Table::new();
        let mut i: usize = 0;
        assert(pool@.map_values(|k: [u8; 32]| k@) =~= Map::<Seq<u8>, Seq<u8>>::empty());
        while i < one_time_prekeys.len()
            invariant
                i <= one_time_prekeys@.len(),
                pool.wf(),
                pool@.map_values(|k: [u8; 32]| k@) == prekey_pool(one_time_prekeys@, i as nat),
            decreases one_time_prekeys@.len() - i,
        {
            let secret: [u8; 32] = one_time_prekeys[i];
            let ghost before = pool@;
            let public: [u8; 32] = suite::x25519_public_key(&secret);
            pool.insert(public, secret);
            assert(pool@.map_values(|k: [u8; 32]| k@) =~= before.map_values(
                |k: [u8; 32]| k@,
            ).insert(public@, secret@));
            i = i + 1;
        }
        let sessions: Table<UserId, Session> = Table::new();
        let manager = SessionManager {
            sessions,
            x3dh_identity,
            our_signed_prekey,
            one_time_prekeys: pool,
            my_identity,
        };
        assert(manager@.sessions =~= Map::<Seq<char>, SessionModel>::empty());
        manager
    }

    /// This node's user name.
    pub fn my_user_id(&self) -> (user_id: &UserId)
        ensures
            user_id@ == self@.me.name,
    {
        proof {
            identity::identity_fields(self.my_identity);
        }
        &self.my_identity.user_id
    }

    /// Signs bytes with this node's identity.
    pub fn sign_own_bytes(&self, data: &[u8]) -> (signature: Vec<u8>)
        ensures
            signature@ == suite::ed25519_sign(self@.me.secret, data@),
            identity::signature_accepted(
                suite::ed25519_public(self@.me.secret),
                data@,
                signature@,
            ),
            signature@.len() == 64,
            suite::ed25519_verifies(
                suite::ed25519_public(self@.me.secret),
                data@,
                signature@,
            ),
    {
        bytes::to_vec(self.my_identity.sign(data).as_slice())
    }

    /// Whether a signature of some bytes is `peer`'s, under the key that the
    /// source gives for that user.
    pub fn verify_own_bytes<I: PeerIdentitySource>(
        &self,
        peer: &UserId,
        data: &[u8],
        signature: &[u8],
        identities: &I,
    ) -> (result: Result<bool, MessengerError>)
        ensures
            identities.knows(peer@) ==> result is Ok,
            result matches Err(e) ==> e == MessengerError::IdentityKeyNotFound(*peer),
            result matches Ok(valid) ==> (exists|key: [u8; 32]|
                identities.vouches(peer@, key@) && valid == #[trigger] identity::signature_accepted(
                    key@,
                    data@,
                    signature@,
                )),
            result matches Ok(valid) ==> (exists|key: [u8; 32]| #[trigger]
                identities.vouches(peer@, key@) && valid == (signature@.len() == 64
                    && suite::ed25519_verifies(key@, data@, signature@))),
    {
        match identities.fetch_identity_key(peer) {
            Ok(key) => {
                let valid = Identity::verify_bytes(&key, data, signature);
                assert(valid == identity::signature_accepted(key@, data@, signature@));
                Ok(valid)
            },
            Err(_) => Err(MessengerError::IdentityKeyNotFound(peer.clone())),
        }
    }

    /// Whether there is a session with a peer in memory.
    pub fn has_session(&self, peer: &UserId) -> (found: bool)
        requires
            self.wf(),
        ensures
            found == self@.sessions.dom().contains(peer@),
    {
        self.sessions.contains_key(peer)
    }

    /// The session with a peer, to store it.
    pub fn session(&self, peer: &UserId) -> (session: Option<&Session>)
        requires
            self.wf(),
        ensures
            match session {
                Some(s) => self@.sessions.dom().contains(peer@) && s@ == self@.sessions[peer@],
                None => !self@.sessions.dom().contains(peer@),
            },
    {
        self.sessions.get(peer)
    }

    /// How many one-time prekeys are left.
    pub fn prekeys_left(&self) -> (count: usize)
        requires
            self.wf(),
        ensures
            count == self@.prekeys.len(),
    {
        proof {
            self.one_time_prekeys.order_is_complete();
            assert(self@.prekeys.dom() =~= self.one_time_prekeys@.dom());
        }
        self.one_time_prekeys.len()
    }

    /// Puts a session with a peer into memory, in place of the one it had.
    pub fn install(&mut self, peer: UserId, session: Session)
        requires
            old(self).wf(),
            session@.id == peer@,
        ensures
            final(self).wf(),
            final(self)@ == with_session(old(self)@, peer@, session@),
    {
        let ghost before = self@;
        self.sessions.insert(peer, session);
        assert(self@.sessions =~= before.sessions.insert(peer@, session@));
    }

    /// Encrypts a message over the session with a peer, then names and signs
    /// it.
    pub fn seal_envelope(
        &mut self,
        peer: &UserId,
        plaintext: &[u8],
        session_init: Option<SessionInit>,
    ) -> (result: Result<EncryptedEnvelope, MessengerError>)
        requires
            old(self).wf(),
        ensures
            final(self).wf(),
            seal_outcome(
                old(self)@,
                final(self)@,
                *peer,
                plaintext@,
                crypto::init_model(session_init),
                result,
            ),
            result matches Ok(e) ==> {
                &&& bears_signature(e@, old(self)@.me)
                &&& e@.session_init == crypto::init_model(session_init)
                &&& old(self)@.sessions.dom().contains(peer@)
                &&& state::sealed_next(old(self)@.sessions[peer@], e@, plaintext@)
                &&& state::sent_one(
                    old(self)@.sessions[peer@],
                    final(self)@.sessions[peer@],
                    final(self)@.sessions[peer@].last_used_at,
                )
                &&& final(self)@.sessions.remove(peer@) == old(self)@.sessions.remove(peer@)
            },
            old(self)@.sessions.dom().contains(peer@)
                && old(self)@.sessions[peer@].ratchet.send_counter < u32::MAX
                && old(self)@.sessions[peer@].messages_sent < u64::MAX && plaintext@.len()
                <= suite::MAX_PLAINTEXT ==> result is Ok,
    {
        let ghost before = self@;
        match self.sessions.get(peer) {
            Some(session) => if !session.has_room_to_send() {
                return Err(MessengerError::SessionExhausted(peer.clone()));
            },
            None => {
                return Err(MessengerError::NoSession(peer.clone()));
            },
        }
        let ghost table = self.sessions@;
        let mut session = match self.sessions.remove(peer) {
            Some(session) => session,
            None => {
                return Err(MessengerError::NoSession(peer.clone()));
            },
        };
        let result = session.encrypt(plaintext);
        let ghost after = session@;
        self.sessions.insert(peer.clone(), session);
        assert(self@.sessions =~= before.sessions.insert(peer@, after));
        match result {
            Ok(mut envelope) => {
                proof {
                    identity::identity_fields(self.my_identity);
                }
                envelope.sender_id = self.my_identity.user_id.clone();
                envelope.session_init = session_init;
                let to_sign: Vec<u8> = envelope.signable_bytes();
                let ghost signed = envelope@;
                envelope.sender_signature = bytes::to_vec(
                    self.my_identity.sign(to_sign.as_slice()).as_slice(),
                );
                assert(envelope@.signable() == signed.signable());
                assert(self@.sessions.remove(peer@) =~= before.sessions.remove(peer@));
                Ok(envelope)
            },
            Err(e) => Err(e),
        }
    }

    /// Decrypts a message over the session with a peer. The envelope's
    /// signature is checked before.
    pub fn open_envelope(&mut self, peer: &UserId, envelope: &EncryptedEnvelope) -> (result: Result<
        Vec<u8>,
        MessengerError,
    >)
        requires
            old(self).wf(),
        ensures
            final(self).wf(),
            open_outcome(old(self)@, final(self)@, *peer, envelope@, result),
    {
        let ghost before = self@;
        match self.sessions.get(peer) {
            Some(session) => if !session.has_room_to_receive() {
                return Err(MessengerError::SessionExhausted(peer.clone()));
            },
            None => {
                return Err(MessengerError::NoSession(peer.clone()));
            },
        }
        let mut session = match self.sessions.remove(peer) {
            Some(session) => session,
            None => {
                return Err(MessengerError::NoSession(peer.clone()));
            },
        };
        let result = session.decrypt(envelope);
        let ghost after = session@;
        self.sessions.insert(peer.clone(), session);
        assert(self@.sessions =~= before.sessions.insert(peer@, after));
        result
    }

    /// A session with the owner of a bundle, under the given ephemeral
    /// secret and time, and the parameters that announce it.
    pub fn start_session_with(
        &self,
        peer: &UserId,
        bundle: &PreKeyBundle,
        ephemeral: &[u8; 32],
        now: u64,
    ) -> (result: (Session, SessionInit))
        ensures
            result.0@ == state::fresh(
                peer@,
                SessionOrigin::Initiated,
                x3dh::initiator_secret(self@.x3dh_identity, ephemeral@, *bundle),
                now,
            ),
            result.1@ == announced(*bundle, suite::x25519_public(ephemeral@)),
            result.1.ephemeral_key@ == suite::x25519_public(ephemeral@),
            result.1.one_time_prekey_public == bundle.one_time_prekey,
            result.0@.ratchet.send_chain == suite::hkdf_sha256(
                suite::hkdf_sha256(
                    suite::x25519_shared(self@.x3dh_identity, bundle.signed_prekey@)
                        + suite::x25519_shared(ephemeral@, bundle.identity_key@)
                        + suite::x25519_shared(ephemeral@, bundle.signed_prekey@) + (
                    match bundle.one_time_prekey {
                        Some(key) => suite::x25519_shared(ephemeral@, key@),
                        None => Seq::<u8>::empty(),
                    }),
                    utf8::encode_utf8("messenger-x3dh-v1"@),
                ),
                utf8::encode_utf8("ratchet-chain-initiator-to-responder"@),
            ),
            x3dh::responder_agrees(
                x3dh::initiator_secret(self@.x3dh_identity, ephemeral@, *bundle),
                *bundle,
                suite::x25519_public(self@.x3dh_identity),
                result.1@.ephemeral_key,
            ),
    {
        let (agreed, ephemeral_key) = X3dhSession::initiate_with(
            &self.x3dh_identity,
            bundle,
            ephemeral,
        );
        let init = SessionInit { ephemeral_key, one_time_prekey_public: bundle.one_time_prekey };
        (
            Session::new_at(peer.clone(), SessionOrigin::Initiated, agreed.shared_secret, now),
            init,
        )
    }

    /// A session with the owner of a bundle, and the parameters that
    /// announce it.
    pub fn start_session(&self, peer: &UserId, bundle: &PreKeyBundle) -> (result: (
        Session,
        SessionInit,
    ))
        ensures
            exists|root: Seq<u8>|
                {
                    &&& result.0@ == state::fresh(
                        peer@,
                        SessionOrigin::Initiated,
                        root,
                        result.0@.created_at,
                    )
                    &&& agreed_over(self@, *bundle, result.1@.ephemeral_key, root)
                    &&& #[trigger] x3dh::responder_agrees(
                        root,
                        *bundle,
                        suite::x25519_public(self@.x3dh_identity),
                        result.1@.ephemeral_key,
                    )
                },
            result.1@ == announced(*bundle, result.1@.ephemeral_key),
            result.1.one_time_prekey_public == bundle.one_time_prekey,
            result.0@.peer == peer@,
            result.0@.origin == SessionOrigin::Initiated,
            clock::told(result.0@.created_at),
    {
        let ephemeral: [u8; 32] = suite::draw_key();
        let result = self.start_session_with(peer, bundle, &ephemeral, clock::now_unix());
        assert(agreed_over(
            self@,
            *bundle,
            result.1@.ephemeral_key,
            x3dh::initiator_secret(self@.x3dh_identity, ephemeral@, *bundle),
        ));
        result
    }

    /// Sets up the peer's half of a session from the parameters in a first
    /// message and the peer's own bundle, at the time `now`. The one-time
    /// prekey it used leaves the pool.
    pub fn accept_incoming_session_at(
        &mut self,
        peer: &UserId,
        init: &SessionInit,
        their_bundle: &PreKeyBundle,
        now: u64,
    ) -> (session: Session)
        requires
            old(self).wf(),
        ensures
            final(self).wf(),
            final(self)@ == (ManagerModel { prekeys: pool_after(old(self)@, init@), ..old(self)@ }),
            forall|public: Seq<u8>| #[trigger]
                final(self)@.prekeys.dom().contains(public) <==> old(self)@.prekeys.dom().contains(
                    public,
                ) && init@.one_time_prekey_public != Some(public),
            forall|public: Seq<u8>|
                final(self)@.prekeys.dom().contains(public) ==> #[trigger] final(self)@.prekeys[public] == old(self)@.prekeys[public],
            session@.ratchet.recv_chain == suite::hkdf_sha256(
                suite::hkdf_sha256(
                    suite::x25519_shared(old(self)@.signed_prekey, their_bundle.identity_key@)
                        + suite::x25519_shared(old(self)@.x3dh_identity, init.ephemeral_key@)
                        + suite::x25519_shared(old(self)@.signed_prekey, init.ephemeral_key@) + (
                    match init@.one_time_prekey_public {
                        Some(public) => if old(self)@.prekeys.dom().contains(public) {
                            suite::x25519_shared(old(self)@.prekeys[public], init.ephemeral_key@)
                        } else {
                            Seq::<u8>::empty()
                        },
                        None => Seq::<u8>::empty(),
                    }),
                    utf8::encode_utf8("messenger-x3dh-v1"@),
                ),
                utf8::encode_utf8("ratchet-chain-initiator-to-responder"@),
            ),
            session@ == state::fresh(
                peer@,
                SessionOrigin::Accepted,
                accepted_root(old(self)@, init@, their_bundle.identity_key@),
                now,
            ),
    {
        let ghost before = self@;
        let ghost pool = self.one_time_prekeys@;
        let one_time: Option<[u8; 32]> = match &init.one_time_prekey_public {
            Some(public) => {
                let taken = self.one_time_prekeys.remove(public);
                assert(self@.prekeys =~= before.prekeys.remove(public@));
                taken
            },
            None => None,
        };
        assert(crypto::key_model(one_time) == used_prekey(before, init@));
        let agreed = X3dhSession::respond(
            &self.x3dh_identity,
            &self.our_signed_prekey,
            match &one_time {
                Some(secret) => Some(secret),
                None => None,
            },
            &their_bundle.identity_key,
            &init.ephemeral_key,
        );
        Session::new_at(peer.clone(), SessionOrigin::Accepted, agreed.shared_secret, now)
    }

    /// Makes sure that there is a session with a peer: the one in memory, a
    /// stored one, or a new one over the peer's published prekeys. Returns
    /// the parameters of a new session, which the first message carries.
    pub fn ensure_session_as_initiator<
        S: SessionStore,
        B: PreKeyBundleSource,
        I: PeerIdentitySource,
    >(&mut self, peer: &UserId, store: &mut S, bundles: &B, identities: &I) -> (result: Result<
        Option<SessionInit>,
        MessengerError,
    >)
        requires
            old(self).wf(),
        ensures
            final(self).wf(),
            ready_to_send(
                old(self)@,
                final(self)@,
                session_store::store_model(*old(store)),
                session_store::store_model(*final(store)),
                *peer,
                *bundles,
                *identities,
                result,
            ),
            result matches Ok(Some(_)) ==> contact_proved(peer@, *bundles, *identities),
            result is Ok ==> final(self)@.sessions.dom().contains(peer@),
            final(self)@.me == old(self)@.me,
    {
        if self.has_session(peer) {
            return Ok(None);
        }
        let ghost before = self@;
        let ghost store_before = session_store::store_model(*store);
        let id = SessionId::for_peer(peer);
        let loaded = store.load(&id);
        assert(load_answer(store_before, peer@, loaded));
        match loaded {
            Err(e) => {
                return Err(e);
            },
            Ok(Some(restored)) => {
                self.install(peer.clone(), restored);
                return Ok(None);
            },
            Ok(None) => {},
        }
        let published = bundles.fetch_bundle(peer);
        assert(bundle_answer(*bundles, peer@, published));
        let bundle = match published {
            Ok(bundle) => bundle,
            Err(e) => {
                return Err(e);
            },
        };
        let key = identities.fetch_identity_key(peer);
        assert(identity_answer(*identities, peer@, key));
        match verify_bundle_signature(peer, &bundle, key) {
            Ok(_) => {},
            Err(e) => {
                return Err(e);
            },
        }
        proof {
            let vouched = key->Ok_0;
            assert(bundles.publishes(peer@, bundle) && identities.vouches(peer@, vouched@));
            assert(contact_proved(peer@, *bundles, *identities));
        }
        let (session, init) = self.start_session(peer, &bundle);
        let ghost started = session@;
        assert(set_up(before, peer@, bundle, started, init@));
        let kept = store.save(&session);
        assert(save_answer(
            store_before,
            session_store::store_model(*store),
            peer@,
            started,
            kept,
        ));
        let result = match kept {
            Ok(_) => {
                self.install(peer.clone(), session);
                Ok(Some(init))
            },
            Err(e) => Err(e),
        };
        assert(contact_stored(
            before,
            self@,
            store_before,
            session_store::store_model(*store),
            peer@,
            bundle,
            result,
        ));
        result
    }

    /// Stores the session with a peer.
    fn persist<S: SessionStore>(&self, peer: &UserId, store: &mut S) -> (result: Result<
        (),
        MessengerError,
    >)
        requires
            self.wf(),
        ensures
            !self@.sessions.dom().contains(peer@) ==> *final(store) == *old(store) && result
                == Err::<(), _>(MessengerError::NoSession(*peer)),
            self@.sessions.dom().contains(peer@) ==> save_answer(
                session_store::store_model(*old(store)),
                session_store::store_model(*final(store)),
                peer@,
                self@.sessions[peer@],
                result,
            ),
    {
        match self.sessions.get(peer) {
            Some(session) => {
                assert(self@.sessions.dom().contains(peer@));
                store.save(session)
            },
            None => Err(MessengerError::NoSession(peer.clone())),
        }
    }

    /// Encrypts a message for a peer over a session that is found or set up,
    /// and stores the session.
    fn prepare_and_seal<S: SessionStore, B: PreKeyBundleSource, I: PeerIdentitySource>(
        &mut self,
        peer: &UserId,
        plaintext: &[u8],
        store: &mut S,
        bundles: &B,
        identities: &I,
    ) -> (result: Result<EncryptedEnvelope, MessengerError>)
        requires
            old(self).wf(),
        ensures
            final(self).wf(),
            encrypt_outcome(
                old(self)@,
                final(self)@,
                session_store::store_model(*old(store)),
                session_store::store_model(*final(store)),
                *peer,
                plaintext@,
                *bundles,
                *identities,
                result,
            ),
            result matches Ok(e) ==> {
                &&& bears_signature(e@, old(self)@.me)
                &&& e@.session_init is Some ==> contact_proved(peer@, *bundles, *identities)
                &&& exists|key: Seq<u8>| #[trigger]
                    suite::sealed(key, e@.nonce, plaintext@) == Some(e@.ciphertext)
            },
    {
        let ghost before = self@;
        let ghost store_before = session_store::store_model(*store);
        let prepared = self.ensure_session_as_initiator(peer, store, bundles, identities);
        let ghost ready = self@;
        let ghost store_ready = session_store::store_model(*store);
        assert(ready_to_send(
            before,
            ready,
            store_before,
            store_ready,
            *peer,
            *bundles,
            *identities,
            prepared,
        ));
        let session_init = match prepared {
            Ok(init) => init,
            Err(e) => {
                return Err(e);
            },
        };
        let sealed = self.seal_envelope(peer, plaintext, session_init);
        assert(seal_outcome(
            ready,
            self@,
            *peer,
            plaintext@,
            crypto::init_model(session_init),
            sealed,
        ));
        let result = match sealed {
            Ok(envelope) => {
                let kept = self.persist(peer, store);
                assert(save_answer(
                    store_ready,
                    session_store::store_model(*store),
                    peer@,
                    self@.sessions[peer@],
                    kept,
                ));
                match kept {
                    Ok(_) => Ok(envelope),
                    Err(e) => Err(e),
                }
            },
            Err(e) => Err(e),
        };
        assert(seal_and_store(
            ready,
            self@,
            store_ready,
            session_store::store_model(*store),
            *peer,
            plaintext@,
            crypto::init_model(session_init),
            result,
        ));
        result
    }

    /// Encrypts a message for a peer, setting up the session if need be.
    ///
    /// Session parameters are attached exactly where this call set up a new
    /// session. An error of the store or of a source is passed on.
    pub fn encrypt_for<S: SessionStore, B: PreKeyBundleSource, I: PeerIdentitySource>(
        &mut self,
        peer: &UserId,
        plaintext: &[u8],
        store: &mut S,
        bundles: &B,
        identities: &I,
    ) -> (result: Result<EncryptedEnvelope, MessengerError>)
        requires
            old(self).wf(),
        ensures
            final(self).wf(),
            encrypt_outcome(
                old(self)@,
                final(self)@,
                session_store::store_model(*old(store)),
                session_store::store_model(*final(store)),
                *peer,
                plaintext@,
                *bundles,
                *identities,
                result,
            ),
            others_unchanged(
                old(self)@,
                final(self)@,
                session_store::store_model(*old(store)),
                session_store::store_model(*final(store)),
                peer@,
            ),
            final(self)@.prekeys == old(self)@.prekeys,
            result matches Ok(e) ==> {
                &&& bears_signature(e@, old(self)@.me)
                &&& e@.session_init is Some ==> contact_proved(peer@, *bundles, *identities)
                &&& exists|key: Seq<u8>| #[trigger]
                    suite::sealed(key, e@.nonce, plaintext@) == Some(e@.ciphertext)
                &&& e.session_init is Some <==> found_session(
                    old(self)@,
                    session_store::store_model(*old(store)),
                    peer@,
                ) is None
                &&& in_step(final(self)@, session_store::store_model(*final(store)), peer@)
            },
            laws::sendable(
                old(self)@,
                session_store::store_model(*old(store)),
                peer@,
                plaintext@,
                *bundles,
                *identities,
            ) ==> result is Ok,
    {
        let result = self.prepare_and_seal(peer, plaintext, store, bundles, identities);
        proof {
            let store_before = session_store::store_model(*old(store));
            let store_after = session_store::store_model(*store);
            laws::sent_messages_are_in_order(
                old(self)@,
                self@,
                store_before,
                store_after,
                *peer,
                plaintext@,
                *bundles,
                *identities,
                result,
            );
            if laws::sendable(
                old(self)@,
                store_before,
                peer@,
                plaintext@,
                *bundles,
                *identities,
            ) {
                laws::sending_succeeds(
                    old(self)@,
                    self@,
                    store_before,
                    store_after,
                    *peer,
                    plaintext@,
                    *bundles,
                    *identities,
                    result,
                );
            }
        }
        result
    }

    /// Sets up the peer's half of a session from a first message, unless
    /// there is one already, and stores it.
    pub fn accept_incoming_session<S: SessionStore, B: PreKeyBundleSource>(
        &mut self,
        peer: &UserId,
        init: &SessionInit,
        store: &mut S,
        bundles: &B,
    ) -> (result: Result<(), MessengerError>)
        requires
            old(self).wf(),
        ensures
            final(self).wf(),
            old(self)@.sessions.dom().contains(peer@) ==> *final(self) == *old(self)
                && *final(store) == *old(store) && result is Ok,
            !old(self)@.sessions.dom().contains(peer@) ==> accept_outcome(
                old(self)@,
                final(self)@,
                session_store::store_model(*old(store)),
                session_store::store_model(*final(store)),
                peer@,
                init@,
                *bundles,
                result,
            ),
    {
        if self.has_session(peer) {
            return Ok(());
        }
        let ghost before = self@;
        let ghost store_before = session_store::store_model(*store);
        let published = bundles.fetch_bundle(peer);
        assert(bundle_answer(*bundles, peer@, published));
        let their_bundle = match published {
            Ok(bundle) => bundle,
            Err(e) => {
                return Err(e);
            },
        };
        let now: u64 = clock::now_unix();
        let session = self.accept_incoming_session_at(peer, init, &their_bundle, now);
        let ghost half = state::fresh(
            peer@,
            SessionOrigin::Accepted,
            accepted_root(before, init@, their_bundle.identity_key@),
            now,
        );
        assert(session@ == half);
        let kept = store.save(&session);
        assert(save_answer(
            store_before,
            session_store::store_model(*store),
            peer@,
            half,
            kept,
        ));
        match kept {
            Ok(_) => {
                self.install(peer.clone(), session);
                Ok(())
            },
            Err(e) => Err(e),
        }
    }

    /// Makes sure that there is a session to read a message over: the one in
    /// memory, the other half of the one that the message announces, or a
    /// stored one.
    fn ensure_session_as_reader<S: SessionStore, B: PreKeyBundleSource>(
        &mut self,
        peer: &UserId,
        session_init: &Option<SessionInit>,
        store: &mut S,
        bundles: &B,
    ) -> (result: Result<(), MessengerError>)
        requires
            old(self).wf(),
        ensures
            final(self).wf(),
            ready_to_read(
                old(self)@,
                final(self)@,
                session_store::store_model(*old(store)),
                session_store::store_model(*final(store)),
                *peer,
                crypto::init_model(*session_init),
                *bundles,
                result,
            ),
    {
        if self.has_session(peer) {
            return Ok(());
        }
        match session_init {
            Some(init) => self.accept_incoming_session(peer, init, store, bundles),
            None => {
                let loaded = store.load(&SessionId::for_peer(peer));
                assert(load_answer(session_store::store_model(*store), peer@, loaded));
                match loaded {
                    Err(e) => Err(e),
                    Ok(Some(restored)) => {
                        self.install(peer.clone(), restored);
                        Ok(())
                    },
                    Ok(None) => Err(MessengerError::NoSession(peer.clone())),
                }
            },
        }
    }

    /// Checks a message from a peer, decrypts it over a session that is found
    /// or set up, and stores the session.
    fn check_and_open<S: SessionStore, B: PreKeyBundleSource, I: PeerIdentitySource>(
        &mut self,
        peer: &UserId,
        envelope: &EncryptedEnvelope,
        store: &mut S,
        bundles: &B,
        identities: &I,
    ) -> (result: Result<Vec<u8>, MessengerError>)
        requires
            old(self).wf(),
        ensures
            final(self).wf(),
            decrypt_outcome(
                old(self)@,
                final(self)@,
                session_store::store_model(*old(store)),
                session_store::store_model(*final(store)),
                *peer,
                *envelope,
                *bundles,
                *identities,
                result,
            ),
    {
        let ghost before = self@;
        let ghost store_before = session_store::store_model(*store);
        match check_sender(peer, envelope) {
            Ok(_) => {},
            Err(e) => {
                return Err(e);
            },
        }
        let key = identities.fetch_identity_key(peer);
        assert(identity_answer(*identities, peer@, key));
        match check_signature(peer, envelope, key) {
            Ok(_) => {},
            Err(e) => {
                return Err(e);
            },
        }
        let prepared = self.ensure_session_as_reader(
            peer,
            &envelope.session_init,
            store,
            bundles,
        );
        let ghost ready = self@;
        let ghost store_ready = session_store::store_model(*store);
        assert(ready_to_read(
            before,
            ready,
            store_before,
            store_ready,
            *peer,
            envelope@.session_init,
            *bundles,
            prepared,
        ));
        match prepared {
            Ok(_) => {},
            Err(e) => {
                return Err(e);
            },
        }
        let opened = self.open_envelope(peer, envelope);
        assert(open_outcome(ready, self@, *peer, envelope@, opened));
        let result = match opened {
            Ok(plaintext) => {
                let kept = self.persist(peer, store);
                assert(save_answer(
                    store_ready,
                    session_store::store_model(*store),
                    peer@,
                    self@.sessions[peer@],
                    kept,
                ));
                match kept {
                    Ok(_) => Ok(plaintext),
                    Err(e) => Err(e),
                }
            },
            Err(e) => Err(e),
        };
        assert(open_and_store(
            ready,
            self@,
            store_ready,
            session_store::store_model(*store),
            *peer,
            envelope@,
            result,
        ));
        assert(read_outcome(
            before,
            self@,
            store_before,
            session_store::store_model(*store),
            *peer,
            envelope@,
            *bundles,
            result,
        ));
        result
    }

    /// Decrypts a message from a peer.
    ///
    /// The sender's name and signature are checked first: a message that
    /// fails either check changes nothing. Where there is no session in
    /// memory, a first message sets one up before it is decrypted, and any
    /// other is read over the stored one.
    pub fn decrypt_from<S: SessionStore, B: PreKeyBundleSource, I: PeerIdentitySource>(
        &mut self,
        peer: &UserId,
        envelope: &EncryptedEnvelope,
        store: &mut S,
        bundles: &B,
        identities: &I,
    ) -> (result: Result<Vec<u8>, MessengerError>)
        requires
            old(self).wf(),
        ensures
            final(self).wf(),
            decrypt_outcome(
                old(self)@,
                final(self)@,
                session_store::store_model(*old(store)),
                session_store::store_model(*final(store)),
                *peer,
                *envelope,
                *bundles,
                *identities,
                result,
            ),
            others_unchanged(
                old(self)@,
                final(self)@,
                session_store::store_model(*old(store)),
                session_store::store_model(*final(store)),
                peer@,
            ),
            result is Ok ==> {
                &&& laws::signed_by_peer(peer@, envelope@, *identities)
                &&& in_step(final(self)@, session_store::store_model(*final(store)), peer@)
            },
            !laws::signed_by_peer(peer@, envelope@, *identities) ==> {
                &&& final(self)@ == old(self)@
                &&& session_store::store_model(*final(store)) == session_store::store_model(
                    *old(store),
                )
                &&& result is Err
            },
            envelope.sender_id@ == peer@ && identities.knows(peer@) && !laws::signed_by_peer(
                peer@,
                envelope@,
                *identities,
            ) ==> result == Err::<Vec<u8>, _>(MessengerError::InvalidMessageSignature(*peer)),
            forall|plaintext: Seq<u8>|
                laws::surely_from_peer(peer@, envelope@, *identities) && old(store).dependable()
                    && #[trigger] laws::readable(
                    old(self)@,
                    session_store::store_model(*old(store)),
                    peer@,
                    envelope@,
                    *bundles,
                    plaintext,
                ) ==> (result matches Ok(text) && text@ == plaintext),
    {
        let result = self.check_and_open(peer, envelope, store, bundles, identities);
        proof {
            let store_before = session_store::store_model(*old(store));
            let store_after = session_store::store_model(*store);
            laws::only_the_sender_is_heard(
                old(self)@,
                self@,
                store_before,
                store_after,
                *peer,
                *envelope,
                *bundles,
                *identities,
                result,
            );
            laws::read_messages_are_in_order(
                old(self)@,
                self@,
                store_before,
                store_after,
                *peer,
                *envelope,
                *bundles,
                *identities,
                result,
            );
            assert forall|plaintext: Seq<u8>|
                laws::surely_from_peer(peer@, envelope@, *identities) && old(store).dependable()
                    && #[trigger] laws::readable(
                    old(self)@,
                    store_before,
                    peer@,
                    envelope@,
                    *bundles,
                    plaintext,
                ) implies result matches Ok(text) && text@ == plaintext by {
                laws::reading_succeeds(
                    old(self)@,
                    self@,
                    store_before,
                    store_after,
                    *peer,
                    *envelope,
                    *bundles,
                    *identities,
                    plaintext,
                    result,
                );
            }
        }
        result
    }

    /// Encrypts a message for a peer and wraps it into a packet.
    pub fn encrypt_message<S: SessionStore, B: PreKeyBundleSource, I: PeerIdentitySource>(
        &mut self,
        peer: &UserId,
        plaintext: &[u8],
        store: &mut S,
        bundles: &B,
        identities: &I,
    ) -> (result: Result<Packet, MessengerError>)
        requires
            old(self).wf(),
        ensures
            final(self).wf(),
            exists|sealed: Result<EncryptedEnvelope, MessengerError>|
                {
                    &&& #[trigger] encrypt_outcome(
                        old(self)@,
                        final(self)@,
                        session_store::store_model(*old(store)),
                        session_store::store_model(*final(store)),
                        *peer,
                        plaintext@,
                        *bundles,
                        *identities,
                        sealed,
                    )
                    &&& match sealed {
                        Ok(e) => result matches Ok(p) && p@ == protocol::plain_packet(
                            PacketType::DirectMessage,
                            wire::envelope_bytes(e@),
                        ) && wire::parse_envelope(p.encrypted_payload@) == Some(e@),
                        Err(error) => result == Err::<Packet, _>(error),
                    }
                },
    {
        let sealed = self.encrypt_for(peer, plaintext, store, bundles, identities);
        assert(encrypt_outcome(
            old(self)@,
            self@,
            session_store::store_model(*old(store)),
            session_store::store_model(*store),
            *peer,
            plaintext@,
            *bundles,
            *identities,
            sealed,
        ));
        match sealed {
            Ok(envelope) => Ok(packet_of(&envelope)),
            Err(e) => Err(e),
        }
    }

    /// Decrypts the message that a packet carries. The envelope names its
    /// sender, who is returned with the plaintext.
    pub fn decrypt_message<S: SessionStore, B: PreKeyBundleSource, I: PeerIdentitySource>(
        &mut self,
        packet: &Packet,
        store: &mut S,
        bundles: &B,
        identities: &I,
    ) -> (result: Result<(UserId, Vec<u8>), MessengerError>)
        requires
            old(self).wf(),
        ensures
            final(self).wf(),
            message_outcome(
                old(self)@,
                final(self)@,
                session_store::store_model(*old(store)),
                session_store::store_model(*final(store)),
                packet.encrypted_payload@,
                *bundles,
                *identities,
                result,
            ),
            result is Ok ==> laws::heard(
                packet.encrypted_payload@,
                *identities,
                result->Ok_0.0@,
                result->Ok_0.1@,
            ),
            forall|plaintext: Seq<u8>|
                old(store).dependable() && #[trigger] laws::arrives(
                    old(self)@,
                    session_store::store_model(*old(store)),
                    packet.encrypted_payload@,
                    *bundles,
                    *identities,
                    plaintext,
                ) ==> result is Ok && result->Ok_0.0@ == wire::parse_envelope(
                    packet.encrypted_payload@,
                )->Some_0.sender_id && result->Ok_0.1@ == plaintext,
    {
        let envelope = match envelope_of(packet) {
            Ok(envelope) => envelope,
            Err(e) => {
                return Err(e);
            },
        };
        let peer: UserId = envelope.sender_id.clone();
        let opened = self.decrypt_from(&peer, &envelope, store, bundles, identities);
        assert(decrypt_outcome(
            old(self)@,
            self@,
            session_store::store_model(*old(store)),
            session_store::store_model(*store),
            envelope.sender_id,
            envelope,
            *bundles,
            *identities,
            opened,
        ));
        let result = match opened {
            Ok(plaintext) => Ok((peer, plaintext)),
            Err(e) => Err(e),
        };
        proof {
            if result is Ok {
                laws::messages_name_their_senders(
                    old(self)@,
                    self@,
                    session_store::store_model(*old(store)),
                    session_store::store_model(*store),
                    packet.encrypted_payload@,
                    *bundles,
                    *identities,
                    result,
                );
            }
        }
        result
    }

    /// Drops the sessions from memory that were idle for longer than allowed
    /// at the time `now`. What is stored of them stays.
    pub fn evict_stale_at(&mut self, now: u64, max_idle_secs: u64)
        requires
            old(self).wf(),
        ensures
            final(self).wf(),
            final(self)@ == (ManagerModel {
                sessions: kept_sessions(old(self)@.sessions, now, max_idle_secs),
                ..old(self)@
            }),
            forall|peer: Seq<char>| #[trigger]
                final(self)@.sessions.dom().contains(peer) <==> old(self)@.sessions.dom().contains(
                    peer,
                ) && now <= old(self)@.sessions[peer].last_used_at + max_idle_secs,
            forall|peer: Seq<char>|
                final(self)@.sessions.dom().contains(peer) ==> #[trigger] final(self)@.sessions[peer] == old(self)@.sessions[peer],
    {
        let ghost before = *self;
        let mut i: usize = 0;
        while i < self.sessions.len()
            invariant
                self.wf(),
                before.wf(),
                self@ == (ManagerModel { sessions: self@.sessions, ..before@ }),
                i <= self.sessions.order().len(),
                forall|k: Seq<char>| #[trigger]
                    self.sessions@.dom().contains(k) ==> before.sessions@.dom().contains(k)
                        && self.sessions@[k] == before.sessions@[k],
                forall|k: Seq<char>| #[trigger]
                    before.sessions@.dom().contains(k) && !state::stale(
                        before.sessions@[k]@,
                        now,
                        max_idle_secs,
                    ) ==> self.sessions@.dom().contains(k),
                forall|j: int|
                    0 <= j < i ==> !state::stale(
                        self.sessions@[#[trigger] self.sessions.order()[j]]@,
                        now,
                        max_idle_secs,
                    ),
            decreases self.sessions.order().len() - i,
        {
            if self.sessions.value_at(i).is_stale_at(now, max_idle_secs) {
                self.sessions.remove_at(i);
                assert forall|k: Seq<char>| #[trigger] self@.sessions.dom().contains(k) implies
                    self@.sessions[k].id == k by {
                    assert(self.sessions@.dom().contains(k));
                    assert(before@.sessions.dom().contains(k));
                }
            } else {
                i = i + 1;
            }
        }
        proof {
            self.sessions.order_is_complete();
            assert forall|k: Seq<char>| #[trigger] self.sessions@.dom().contains(k) implies
                !state::stale(self.sessions@[k]@, now, max_idle_secs) by {
                assert(self.sessions.order().contains(k));
                let j = choose|j: int|
                    0 <= j < self.sessions.order().len() && self.sessions.order()[j] == k;
                assert(!state::stale(
                    self.sessions@[self.sessions.order()[j]]@,
                    now,
                    max_idle_secs,
                ));
            }
            assert(self@.sessions =~= kept_sessions(before@.sessions, now, max_idle_secs));
        }
    }

    /// Drops the sessions from memory that are idle for longer than allowed.
    pub fn evict_stale(&mut self, max_idle_secs: u64)
        requires
            old(self).wf(),
        ensures
            final(self).wf(),
            exists|now: u64|
                clock::told(now) && final(self)@ == (ManagerModel {
                    sessions: #[trigger] kept_sessions(old(self)@.sessions, now, max_idle_secs),
                    ..old(self)@
                }),
    {
        let now: u64 = clock::now_unix();
        self.evict_stale_at(now, max_idle_secs);
        assert(self@.sessions == kept_sessions(old(self)@.sessions, now, max_idle_secs));
    }
}

/// The sessions that are not stale.
pub open spec fn kept_sessions(
    sessions: Map<Seq<char>, SessionModel>,
    now: u64,
    max_idle_secs: u64,
) -> Map<Seq<char>, SessionModel> {
    Map::new(
        |k: Seq<char>|
            sessions.dom().contains(k) && !state::stale(sessions[k], now, max_idle_secs),
        |k: Seq<char>| sessions[k],
    )
}

/// Over an established session a message arrives. What one manager sealed
/// for a peer bears a signature that the sender's public key verifies, and
/// the peer's half of the session reads it, as long as its key is available.
pub proof fn established_session_delivers(
    alice: ManagerModel,
    bob: ManagerModel,
    bob_name: Seq<char>,
    origin: Seq<u8>,
    e: EnvelopeModel,
    plaintext: Seq<u8>,
)
    requires
        alice.me.wf(),
        alice.sessions.dom().contains(bob_name),
        bob.sessions.dom().contains(alice.me.name),
        ratchet::leads(alice.sessions[bob_name].ratchet, origin),
        ratchet::follows(bob.sessions[alice.me.name].ratchet, origin),
        stamped(e, alice.me, e.session_init),
        ratchet::carries(e, alice.sessions[bob_name].ratchet, plaintext),
        ratchet::key_available(bob.sessions[alice.me.name].ratchet, e.counter),
    ensures
        e.sender_id == alice.me.name,
        identity::signature_accepted(alice.me.public, e.signable(), e.sender_signature),
        ratchet::receive_result(bob.sessions[alice.me.name].ratchet, e) == Ok::<
            Seq<u8>,
            ratchet::RatchetError,
        >(plaintext),
{
    ratchet::message_is_delivered(
        alice.sessions[bob_name].ratchet,
        bob.sessions[alice.me.name].ratchet,
        origin,
        e,
        plaintext,
    );
}

/// Whether two sessions are the halves of one: what each sends over a chain
/// the other receives over the same chain.
pub open spec fn paired(
    first: SessionModel,
    second: SessionModel,
    there: Seq<u8>,
    back: Seq<u8>,
) -> bool {
    &&& ratchet::leads(first.ratchet, there)
    &&& ratchet::follows(first.ratchet, back)
    &&& ratchet::leads(second.ratchet, back)
    &&& ratchet::follows(second.ratchet, there)
}

/// Opening undoes sealing: over the two halves of a session, what one manager
/// seals the other opens to the same text, as long as the key is available.
/// Both halves stay paired.
pub proof fn sealed_messages_are_opened(
    alice: ManagerModel,
    alice_after: ManagerModel,
    bob: ManagerModel,
    bob_after: ManagerModel,
    to: UserId,
    from: UserId,
    there: Seq<u8>,
    back: Seq<u8>,
    plaintext: Seq<u8>,
    init: Option<InitModel>,
    envelope: EncryptedEnvelope,
    opened: Result<Vec<u8>, MessengerError>,
)
    requires
        alice.me.wf(),
        from@ == alice.me.name,
        seal_outcome(alice, alice_after, to, plaintext, init, Ok(envelope)),
        open_outcome(bob, bob_after, from, envelope@, opened),
        bob.sessions.dom().contains(from@),
        state::can_receive(bob.sessions[from@]),
        paired(alice.sessions[to@], bob.sessions[from@], there, back),
        ratchet::key_available(bob.sessions[from@].ratchet, envelope@.counter),
    ensures
        opened matches Ok(text) && text@ == plaintext,
        paired(alice_after.sessions[to@], bob_after.sessions[from@], there, back),
{
    established_session_delivers(alice, bob, to@, there, envelope@, plaintext);
    ratchet::sending_keeps_both_chains(alice.sessions[to@].ratchet, there, back);
    ratchet::receiving_keeps_both_chains(
        bob.sessions[from@].ratchet,
        back,
        there,
        envelope@.counter,
    );
}

/// A stranger's first message arrives. The initiator set up a session over a
/// bundle and announced it; the owner of that bundle, who knows the
/// initiator's published identity key and still has the one-time prekey,
/// sets up the other half over the same secret and reads the message.
pub proof fn first_message_is_read(
    alice: ManagerModel,
    bob: ManagerModel,
    bob_name: Seq<char>,
    bundle: PreKeyBundle,
    root: Seq<u8>,
    init: InitModel,
    e: EnvelopeModel,
    plaintext: Seq<u8>,
    alice_time: u64,
    bob_time: u64,
)
    requires
        x3dh::responder_agrees(
            root,
            bundle,
            suite::x25519_public(alice.x3dh_identity),
            init.ephemeral_key,
        ),
        init == announced(bundle, init.ephemeral_key),
        x3dh::owns_bundle(bundle, bob.x3dh_identity, bob.signed_prekey, used_prekey(bob, init)),
        ratchet::carries(
            e,
            state::fresh(bob_name, SessionOrigin::Initiated, root, alice_time).ratchet,
            plaintext,
        ),
    ensures
        accepted_root(bob, init, suite::x25519_public(alice.x3dh_identity)) == root,
        ({
            let accepted = state::fresh(
                alice.me.name,
                SessionOrigin::Accepted,
                accepted_root(bob, init, suite::x25519_public(alice.x3dh_identity)),
                bob_time,
            );
            ratchet::receive_result(accepted.ratchet, e) == Ok::<Seq<u8>, ratchet::RatchetError>(
                plaintext,
            )
        }),
{
    ratchet::sides_are_crossed(root);
    ratchet::message_is_delivered(
        ratchet::initial(root, ratchet::RatchetRole::Initiator),
        ratchet::initial(root, ratchet::RatchetRole::Responder),
        ratchet::initiator_chain(root),
        e,
        plaintext,
    );
}

/// A one-time prekey is used once: after a session was accepted with it, it
/// is gone from the pool.
pub proof fn one_time_prekeys_are_used_once(before: ManagerModel, after: ManagerModel, init: InitModel)
    requires
        after.prekeys == pool_after(before, init),
    ensures
        used_prekey(after, init) is None,
        forall|public: Seq<u8>|
            init.one_time_prekey_public != Some(public) && before.prekeys.dom().contains(public)
                ==> #[trigger] after.prekeys.dom().contains(public),
{
}

/// What announces a session says all that the other side needs to set up its
/// half: the ephemeral key, and which one-time prekey was used, if any.
pub proof fn announcements_name_the_prekey(bundle: PreKeyBundle, ephemeral_public: Seq<u8>)
    ensures
        announced(bundle, ephemeral_public).ephemeral_key == ephemeral_public,
        match bundle.one_time_prekey {
            Some(key) => announced(bundle, ephemeral_public).one_time_prekey_public == Some(key@),
            None => announced(bundle, ephemeral_public).one_time_prekey_public is None,
        },
{
}

} // verus!
