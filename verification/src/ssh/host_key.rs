//! The host key of the SSH service: read from the agent's state, or made.
//! Keys are held as the text of their OpenSSH files.
use russh::keys::ssh_key::LineEnding;
use russh::keys::{Algorithm, PrivateKey};
use vstd::prelude::*;
use crate::text;

verus! {

/// A text is an OpenSSH private key.
pub uninterp spec fn is_private_key(key: Seq<char>) -> bool;

/// The line of the public key that belongs to the private key in a text.
pub uninterp spec fn public_key_line(key: Seq<char>) -> Option<Seq<char>>;

/// A line of a public key starts with the name of its algorithm.
pub open spec fn is_ed25519_line(line: Seq<char>) -> bool {
    "ssh-ed25519 "@.is_prefix_of(line)
}

/// `PrivateKey::from_openssh`: whether it reads a text as a private key.
#[verifier::external_body]
fn reads_as_key(key: &str) -> (r: bool)
    ensures
        r == is_private_key(key@),
{
    PrivateKey::from_openssh(key).is_ok()
}

/// `PublicKey::to_openssh` of the public key of `PrivateKey::from_openssh`: the
/// line of the public key, where both succeed.
#[verifier::external_body]
fn public_line(key: &str) -> (r: Option<String>)
    ensures
        text::opt_string(r) == public_key_line(key@),
{
    PrivateKey::from_openssh(key).ok().and_then(|k| k.public_key().to_openssh().ok())
}

/// `PrivateKey::random` for Ed25519 with the generator of the thread, then
/// `PrivateKey::to_openssh` with LF line ends. Nothing is promised of which key
/// it is. There always is one, since neither call fails for this algorithm: a
/// private key that reads back, and whose public key has a line that names the
/// algorithm.
#[verifier::external_body]
fn random_key() -> (r: Option<String>)
    ensures
        r is Some,
        r matches Some(key) ==> is_private_key(key@),
        r matches Some(key) ==> public_key_line(key@) is Some && is_ed25519_line(
            public_key_line(key@)->0,
        ),
{
    PrivateKey::random(&mut rand::rng(), Algorithm::Ed25519).ok().and_then(
        |k| k.to_openssh(LineEnding::LF).ok().map(|t| t.to_string()),
    )
}

/// Why there is no host key, or no public line of it.
#[derive(Debug, Clone, Copy, PartialEq, Eq, Structural)]
pub enum HostKeyError {
    /// The file holds no private key.
    Unreadable,
    /// No key could be made.
    NotGenerated,
    /// The public key could not be written as a line.
    NoPublicLine,
}

/// A host key, and whether it has still to be stored: privately, in place of
/// whatever is there.
#[derive(Debug)]
pub struct HostKey {
    pub key: String,
    pub fresh: bool,
}

/// The host key in a file, given whether it reads as a private key.
pub fn stored_key(key: String, readable: bool) -> (r: Result<HostKey, HostKeyError>)
    ensures
        match r {
            Ok(k) => readable && k.key@ == key@ && !k.fresh,
            Err(e) => !readable && e is Unreadable,
        },
{
    if readable {
        Ok(HostKey { key, fresh: false })
    } else {
        Err(HostKeyError::Unreadable)
    }
}

/// A new host key, if one could be made.
pub fn new_key(made: Option<String>) -> (r: Result<HostKey, HostKeyError>)
    ensures
        match r {
            Ok(k) => made matches Some(key) && k.key@ == key@ && k.fresh,
            Err(e) => made is None && e is NotGenerated,
        },
{
    match made {
        Some(key) => Ok(HostKey { key, fresh: true }),
        None => Err(HostKeyError::NotGenerated),
    }
}

/// The host key: the one in the file, which has to be readable, or a new one
/// where there is no file. A new one is readable, so that it is loaded once it
/// has been stored.
pub fn load_or_create_host_key(file: Option<String>) -> (r: Result<HostKey, HostKeyError>)
    ensures
        match file {
            Some(content) => match r {
                Ok(k) => is_private_key(content@) && k.key@ == content@ && !k.fresh,
                Err(e) => !is_private_key(content@) && e is Unreadable,
            },
            None => r matches Ok(k) && k.fresh && is_private_key(k.key@) && public_key_line(
                k.key@,
            ) is Some && is_ed25519_line(public_key_line(k.key@)->0),
        },
{
    match file {
        Some(key) => {
            let readable = reads_as_key(key.as_str());
            stored_key(key, readable)
        },
        None => new_key(random_key()),
    }
}

/// A line of a public key, if there is one.
pub fn found_line(line: Option<String>) -> (r: Result<String, HostKeyError>)
    ensures
        match r {
            Ok(l) => text::opt_string(line) == Some(l@),
            Err(e) => line is None && e is NoPublicLine,
        },
{
    match line {
        Some(l) => Ok(l),
        None => Err(HostKeyError::NoPublicLine),
    }
}

/// The line of the public key of a host key, as in `ssh-ed25519 AAAA...`.
pub fn host_pubkey_openssh(host: &HostKey) -> (r: Result<String, HostKeyError>)
    ensures
        match r {
            Ok(line) => public_key_line(host.key@) == Some(line@),
            Err(e) => public_key_line(host.key@) is None && e is NoPublicLine,
        },
{
    found_line(public_line(host.key.as_str()))
}

} // verus!
