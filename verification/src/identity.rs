//! The signing identity of a run, built once from a PEM-encoded
//! elliptic-curve private key.
//!
//! OpenSSL reads the key; `ic-agent` wraps it into the identity that signs
//! every call. Both are opaque here: the module fixes what is handed to them
//! and what each of their answers leads to.

use crate::error::MigrationError;
use ic_agent::identity::Secp256k1Identity;
use openssl::ec::EcKey;
use openssl::error::ErrorStack;
use openssl::pkey::Private;
use vstd::prelude::*;

verus! {

/// `openssl::ec::EcKey`, carried from the parser to the identity.
#[verifier::external_type_specification]
#[verifier::external_body]
#[verifier::reject_recursive_types(T)]
pub struct ExEcKey<T>(openssl::ec::EcKey<T>);

/// `openssl::pkey::Private`, the marker of a key that holds its private part.
#[verifier::external_type_specification]
#[verifier::external_body]
pub struct ExPrivate(openssl::pkey::Private);

/// `openssl::error::ErrorStack`, carried from the parser to the place where
/// it is mapped.
#[verifier::external_type_specification]
#[verifier::external_body]
pub struct ExErrorStack(openssl::error::ErrorStack);

/// `ic_agent::identity::Secp256k1Identity`, handed out to the caller.
#[verifier::external_type_specification]
#[verifier::external_body]
pub struct ExSecp256k1Identity(ic_agent::identity::Secp256k1Identity);

/// Longest key file that is handed to the PEM parser. OpenSSL takes the
/// length of its input as a C `int`, and the binding refuses a longer buffer
/// by panicking.
pub const MAX_PEM_LEN: usize = 0x7fff_ffff;

/// Calls `openssl::ec::EcKey::private_key_from_pem` on the bytes. The input
/// is at most `MAX_PEM_LEN` long: on a longer one the binding panics before
/// it reaches the parser. Nothing is claimed of the answer: for an encrypted
/// key OpenSSL asks its surroundings for a passphrase, so the answer is not a
/// matter of the bytes alone.
#[verifier::external_body]
fn private_key_from_pem(pem: &[u8]) -> Result<EcKey<Private>, ErrorStack>
    requires
        pem@.len() <= MAX_PEM_LEN,
{
    EcKey::private_key_from_pem(pem)
}

/// Calls `ic_agent::identity::Secp256k1Identity::from_private_key` on the
/// key. Nothing is claimed of the identity.
#[verifier::external_body]
fn identity_from_private_key(key: EcKey<Private>) -> Secp256k1Identity {
    Secp256k1Identity::from_private_key(key)
}

/// The identity for what the PEM parser answered: a key becomes the identity
/// that signs with it, an error becomes `KeyLoad`.
pub fn identity_of(parsed: Result<EcKey<Private>, ErrorStack>) -> (res: Result<
    Secp256k1Identity,
    MigrationError,
>)
    ensures
        res is Ok <==> parsed is Ok,
        res matches Err(e) ==> e == MigrationError::KeyLoad,
{
    match parsed {
        Ok(key) => Ok(identity_from_private_key(key)),
        Err(_) => Err(MigrationError::KeyLoad),
    }
}

/// Builds the signing identity from the bytes of a key file. A file longer
/// than `MAX_PEM_LEN` holds no key and is not looked at. Any other is handed
/// to the PEM parser as it is; the only failure is `KeyLoad`. Whether the
/// bytes hold a key is the parser's answer, not a rule of this library:
/// `identity_of` says what each answer leads to.
pub fn load_identity(pem: &[u8]) -> (res: Result<Secp256k1Identity, MigrationError>)
    ensures
        res matches Err(e) ==> e == MigrationError::KeyLoad,
        pem@.len() > MAX_PEM_LEN ==> res is Err,
{
    if pem.len() > MAX_PEM_LEN {
        return Err(MigrationError::KeyLoad);
    }
    identity_of(private_key_from_pem(pem))
}

} // verus!
