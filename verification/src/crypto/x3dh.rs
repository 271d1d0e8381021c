//! Key agreement with a party that may be offline: the initiator combines
//! its keys with the responder's published prekeys, and the responder later
//! arrives at the same secret.
use vstd::prelude::*;

use crate::bytes;
use crate::crypto::suite;
use vstd::utf8;

verus! {

/// The public keys that a user publishes so that others can start a session
/// while the user is offline.
pub struct PreKeyBundle {
    pub identity_key: [u8; 32],
    pub signed_prekey: [u8; 32],
    /// The user's Ed25519 signature of `signed_prekey`.
    pub signed_prekey_signature: Vec<u8>,
    pub one_time_prekey: Option<[u8; 32]>,
}

/// The outcome of a key agreement.
pub struct X3dhSession {
    pub shared_secret: [u8; 32],
}

/// The secret derived from three or four Diffie-Hellman results.
pub open spec fn derived_secret(
    dh1: Seq<u8>,
    dh2: Seq<u8>,
    dh3: Seq<u8>,
    dh4: Option<Seq<u8>>,
) -> Seq<u8> {
    let tail = match dh4 {
        Some(d) => d,
        None => Seq::empty(),
    };
    suite::hkdf_sha256(dh1 + dh2 + dh3 + tail, utf8::encode_utf8("messenger-x3dh-v1"@))
}

/// The secret of the initiator with an identity and an ephemeral secret.
pub open spec fn initiator_secret(
    identity: Seq<u8>,
    ephemeral: Seq<u8>,
    bundle: PreKeyBundle,
) -> Seq<u8> {
    derived_secret(
        suite::x25519_shared(identity, bundle.signed_prekey@),
        suite::x25519_shared(ephemeral, bundle.identity_key@),
        suite::x25519_shared(ephemeral, bundle.signed_prekey@),
        match bundle.one_time_prekey {
            Some(key) => Some(suite::x25519_shared(ephemeral, key@)),
            None => None,
        },
    )
}

/// The secret of the responder for an initiator's two public keys.
pub open spec fn responder_secret(
    identity: Seq<u8>,
    signed_prekey: Seq<u8>,
    one_time_prekey: Option<Seq<u8>>,
    peer_identity: Seq<u8>,
    peer_ephemeral: Seq<u8>,
) -> Seq<u8> {
    derived_secret(
        suite::x25519_shared(signed_prekey, peer_identity),
        suite::x25519_shared(identity, peer_ephemeral),
        suite::x25519_shared(signed_prekey, peer_ephemeral),
        match one_time_prekey {
            Some(secret) => Some(suite::x25519_shared(secret, peer_ephemeral)),
            None => None,
        },
    )
}

/// Whether the secrets are those of a responder that published the bundle.
pub open spec fn owns_bundle(
    bundle: PreKeyBundle,
    identity: Seq<u8>,
    signed_prekey: Seq<u8>,
    one_time_prekey: Option<Seq<u8>>,
) -> bool {
    &&& identity.len() == 32
    &&& suite::x25519_public(identity) == bundle.identity_key@
    &&& signed_prekey.len() == 32
    &&& suite::x25519_public(signed_prekey) == bundle.signed_prekey@
    &&& match bundle.one_time_prekey {
        Some(key) => one_time_prekey matches Some(secret) && secret.len() == 32
            && suite::x25519_public(secret) == key@,
        None => one_time_prekey is None,
    }
}

/// Both sides arrive at the same secret: whoever owns the bundle computes
/// `secret` from the initiator's two public keys.
pub open spec fn responder_agrees(
    secret: Seq<u8>,
    bundle: PreKeyBundle,
    initiator_public: Seq<u8>,
    ephemeral_public: Seq<u8>,
) -> bool {
    forall|identity: Seq<u8>, signed_prekey: Seq<u8>, one_time_prekey: Option<Seq<u8>>| #[trigger]
        owns_bundle(bundle, identity, signed_prekey, one_time_prekey) ==> responder_secret(
            identity,
            signed_prekey,
            one_time_prekey,
            initiator_public,
            ephemeral_public,
        ) == secret
}

impl X3dhSession {
    /// Starts a session with the owner of a bundle, under the given
    /// ephemeral secret. Returns the session and the ephemeral public key,
    /// which the responder needs.
    pub fn initiate_with(
        alice_identity: &[u8; 32],
        bob_bundle: &PreKeyBundle,
        alice_ephemeral: &[u8; 32],
    ) -> (result: (Self, [u8; 32]))
        ensures
            result.0.shared_secret@ == initiator_secret(
                alice_identity@,
                alice_ephemeral@,
                *bob_bundle,
            ),
            result.0.shared_secret@ == suite::hkdf_sha256(
                suite::x25519_shared(alice_identity@, bob_bundle.signed_prekey@)
                    + suite::x25519_shared(alice_ephemeral@, bob_bundle.identity_key@)
                    + suite::x25519_shared(alice_ephemeral@, bob_bundle.signed_prekey@) + (
                match bob_bundle.one_time_prekey {
                    Some(key) => suite::x25519_shared(alice_ephemeral@, key@),
                    None => Seq::<u8>::empty(),
                }),
                utf8::encode_utf8("messenger-x3dh-v1"@),
            ),
            result.1@ == suite::x25519_public(alice_ephemeral@),
            responder_agrees(
                result.0.shared_secret@,
                *bob_bundle,
                suite::x25519_public(alice_identity@),
                result.1@,
            ),
    {
        let ephemeral_public: [u8; 32] = suite::x25519_public_key(alice_ephemeral);
        let dh1: [u8; 32] = suite::x25519_agree(alice_identity, &bob_bundle.signed_prekey);
        let dh2: [u8; 32] = suite::x25519_agree(alice_ephemeral, &bob_bundle.identity_key);
        let dh3: [u8; 32] = suite::x25519_agree(alice_ephemeral, &bob_bundle.signed_prekey);
        let dh4: Option<[u8; 32]> = match &bob_bundle.one_time_prekey {
            Some(key) => Some(suite::x25519_agree(alice_ephemeral, key)),
            None => None,
        };
        let shared_secret: [u8; 32] = Self::derive_key(&dh1, &dh2, &dh3, &dh4);
        (X3dhSession { shared_secret }, ephemeral_public)
    }

    /// Starts a session with the owner of a bundle, under a fresh ephemeral
    /// secret. Returns the session and the ephemeral public key.
    pub fn initiate(alice_identity: &[u8; 32], bob_bundle: &PreKeyBundle) -> (result: (
        Self,
        [u8; 32],
    ))
        ensures
            exists|ephemeral: Seq<u8>|
                {
                    &&& ephemeral.len() == 32
                    &&& suite::drawn_key(ephemeral)
                    &&& result.0.shared_secret@ == #[trigger] initiator_secret(
                        alice_identity@,
                        ephemeral,
                        *bob_bundle,
                    )
                    &&& result.1@ == suite::x25519_public(ephemeral)
                },
            responder_agrees(
                result.0.shared_secret@,
                *bob_bundle,
                suite::x25519_public(alice_identity@),
                result.1@,
            ),
    {
        let ephemeral: [u8; 32] = suite::draw_key();
        let result = Self::initiate_with(alice_identity, bob_bundle, &ephemeral);
        assert(ephemeral@.len() == 32 && result.0.shared_secret@ == initiator_secret(
            alice_identity@,
            ephemeral@,
            *bob_bundle,
        ));
        result
    }

    /// Accepts a session: the responder's side of the same agreement.
    pub fn respond(
        bob_identity: &[u8; 32],
        bob_signed_prekey: &[u8; 32],
        bob_one_time_prekey: Option<&[u8; 32]>,
        alice_identity_public: &[u8; 32],
        alice_ephemeral_public: &[u8; 32],
    ) -> (session: Self)
        ensures
            session.shared_secret@ == responder_secret(
                bob_identity@,
                bob_signed_prekey@,
                match bob_one_time_prekey {
                    Some(secret) => Some(secret@),
                    None => None,
                },
                alice_identity_public@,
                alice_ephemeral_public@,
            ),
            session.shared_secret@ == suite::hkdf_sha256(
                suite::x25519_shared(bob_signed_prekey@, alice_identity_public@)
                    + suite::x25519_shared(bob_identity@, alice_ephemeral_public@)
                    + suite::x25519_shared(bob_signed_prekey@, alice_ephemeral_public@) + (
                match bob_one_time_prekey {
                    Some(secret) => suite::x25519_shared(secret@, alice_ephemeral_public@),
                    None => Seq::<u8>::empty(),
                }),
                utf8::encode_utf8("messenger-x3dh-v1"@),
            ),
    {
        let dh1: [u8; 32] = suite::x25519_agree(bob_signed_prekey, alice_identity_public);
        let dh2: [u8; 32] = suite::x25519_agree(bob_identity, alice_ephemeral_public);
        let dh3: [u8; 32] = suite::x25519_agree(bob_signed_prekey, alice_ephemeral_public);
        let dh4: Option<[u8; 32]> = match bob_one_time_prekey {
            Some(secret) => Some(suite::x25519_agree(secret, alice_ephemeral_public)),
            None => None,
        };
        X3dhSession { shared_secret: Self::derive_key(&dh1, &dh2, &dh3, &dh4) }
    }

    /// The key derived from the Diffie-Hellman results.
    fn derive_key(
        dh1: &[u8; 32],
        dh2: &[u8; 32],
        dh3: &[u8; 32],
        dh4: &Option<[u8; 32]>,
    ) -> (key: [u8; 32])
        ensures
            key@ == derived_secret(
                dh1@,
                dh2@,
                dh3@,
                match *dh4 {
                    Some(d) => Some(d@),
                    None => None,
                },
            ),
    {
        let mut ikm: Vec<u8> = bytes::to_vec(dh1.as_slice());
        bytes::append(&mut ikm, dh2.as_slice());
        bytes::append(&mut ikm, dh3.as_slice());
        match dh4 {
            Some(d) => {
                bytes::append(&mut ikm, d.as_slice());
            },
            None => {
                assert(ikm@ =~= dh1@ + dh2@ + dh3@ + Seq::<u8>::empty());
            },
        }
        let okm: [u8; 32] = suite::hkdf_expand(ikm.as_slice(), "messenger-x3dh-v1".as_bytes());
        suite::wipe_bytes(&mut ikm);
        okm
    }
}

/// Every Diffie-Hellman result enters the secret: two agreements arrive at
/// one secret only where all their results are the same, or where HKDF gives
/// one output for the two different inputs. Whether there is a fourth result
/// counts too.
pub proof fn every_result_counts(
    first: (Seq<u8>, Seq<u8>, Seq<u8>, Option<Seq<u8>>),
    second: (Seq<u8>, Seq<u8>, Seq<u8>, Option<Seq<u8>>),
)
    requires
        first.0.len() == 32 && first.1.len() == 32 && first.2.len() == 32,
        second.0.len() == 32 && second.1.len() == 32 && second.2.len() == 32,
        first.3 matches Some(d) ==> d.len() == 32,
        second.3 matches Some(d) ==> d.len() == 32,
        derived_secret(first.0, first.1, first.2, first.3) == derived_secret(
            second.0,
            second.1,
            second.2,
            second.3,
        ),
    ensures
        first == second || suite::inputs_collide(
            material(first.0, first.1, first.2, first.3),
            material(second.0, second.1, second.2, second.3),
            utf8::encode_utf8("messenger-x3dh-v1"@),
        ),
{
    let a = material(first.0, first.1, first.2, first.3);
    let b = material(second.0, second.1, second.2, second.3);
    if a == b {
        assert(first.0 =~= a.subrange(0, 32) && second.0 =~= b.subrange(0, 32));
        assert(first.1 =~= a.subrange(32, 64) && second.1 =~= b.subrange(32, 64));
        assert(first.2 =~= a.subrange(64, 96) && second.2 =~= b.subrange(64, 96));
        if first.3 is Some {
            assert(a.len() == 128);
            assert(first.3->Some_0 =~= a.subrange(96, 128));
            assert(second.3->Some_0 =~= b.subrange(96, 128));
        } else {
            assert(a.len() == 96);
        }
    }
}

/// Some Diffie-Hellman results, one after another.
pub open spec fn material(
    dh1: Seq<u8>,
    dh2: Seq<u8>,
    dh3: Seq<u8>,
    dh4: Option<Seq<u8>>,
) -> Seq<u8> {
    dh1 + dh2 + dh3 + (match dh4 {
        Some(d) => d,
        None => Seq::empty(),
    })
}

/// The Diffie-Hellman results of an initiator's identity and ephemeral secret
/// with the keys of a bundle.
pub open spec fn results_of(identity: Seq<u8>, ephemeral: Seq<u8>, bundle: PreKeyBundle) -> (
    Seq<u8>,
    Seq<u8>,
    Seq<u8>,
    Option<Seq<u8>>,
) {
    (
        suite::x25519_shared(identity, bundle.signed_prekey@),
        suite::x25519_shared(ephemeral, bundle.identity_key@),
        suite::x25519_shared(ephemeral, bundle.signed_prekey@),
        match bundle.one_time_prekey {
            Some(key) => Some(suite::x25519_shared(ephemeral, key@)),
            None => None,
        },
    )
}

/// The secret of a session depends on who starts it, with whom, and over
/// which prekeys: two initiators arrive at one secret only where each of
/// their keys gives the same result with the bundle's, or where HKDF gives
/// one output for the two different inputs.
pub proof fn secrets_depend_on_every_key(
    first: (Seq<u8>, Seq<u8>, PreKeyBundle),
    second: (Seq<u8>, Seq<u8>, PreKeyBundle),
)
    requires
        forall|secret: Seq<u8>, public: Seq<u8>| #[trigger]
            suite::x25519_shared(secret, public).len() == 32,
        initiator_secret(first.0, first.1, first.2) == initiator_secret(
            second.0,
            second.1,
            second.2,
        ),
    ensures
        ({
            let one = results_of(first.0, first.1, first.2);
            let other = results_of(second.0, second.1, second.2);
            one == other || suite::inputs_collide(
                material(one.0, one.1, one.2, one.3),
                material(other.0, other.1, other.2, other.3),
                utf8::encode_utf8("messenger-x3dh-v1"@),
            )
        }),
{
    every_result_counts(
        results_of(first.0, first.1, first.2),
        results_of(second.0, second.1, second.2),
    );
}

} // verus!
