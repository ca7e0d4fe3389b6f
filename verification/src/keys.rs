//! Deterministic transparent keys, addresses and network magics, derived from names.

use crate::network::NetworkKind;
use crate::text::hex_lower;
use ripemd::Ripemd160;
use secp256k1::{PublicKey, Secp256k1, SecretKey};
use sha2::{Digest, Sha256};
use vstd::prelude::*;
use vstd::utf8::encode_utf8;

verus! {

/// The number of points of the secp256k1 curve.
pub open spec fn curve_order() -> int {
    0xfffffffffffffffffffffffffffffffebaaedce6af48a03bbfd25e8cd0364141int
}

/// The number that `bytes` stand for, most significant byte first.
pub open spec fn be_value(bytes: Seq<u8>) -> int
    decreases bytes.len(),
{
    if bytes.len() == 0 {
        0
    } else {
        be_value(bytes.drop_last()) * 256 + bytes.last()
    }
}

/// Whether `bytes` are a secp256k1 secret key: 32 bytes that stand for a number above zero
/// and below the order of the curve.
pub open spec fn is_secret_key(bytes: Seq<u8>) -> bool {
    bytes.len() == 32 && 0 < be_value(bytes) < curve_order()
}

/// The SHA-256 digest of `data`.
pub uninterp spec fn sha256_digest(data: Seq<u8>) -> Seq<u8>;

/// The RIPEMD-160 digest of `data`.
pub uninterp spec fn ripemd160_digest(data: Seq<u8>) -> Seq<u8>;

/// The compressed encoding of the secp256k1 public key that belongs to a secret key.
pub uninterp spec fn compressed_public_key(secret: Seq<u8>) -> Seq<u8>;

/// Hashes `data` with `Sha256::digest` of the `sha2` crate. The 32 bytes are a function of
/// the data alone.
#[verifier::external_body]
pub(crate) fn sha256(data: &[u8]) -> (digest: [u8; 32])
    ensures
        digest@ == sha256_digest(data@),
{
    Sha256::digest(data).into()
}

/// Hashes `data` with `Ripemd160::digest` of the `ripemd` crate. The 20 bytes are a function
/// of the data alone.
#[verifier::external_body]
pub(crate) fn ripemd160(data: &[u8]) -> (digest: [u8; 20])
    ensures
        digest@ == ripemd160_digest(data@),
{
    Ripemd160::digest(data).into()
}

/// Reads a secret key with `SecretKey::from_slice` of the `secp256k1` crate, and hands back
/// the bytes that it holds.
///
/// A key comes back exactly for the numbers above zero and below the order of the curve, and
/// it holds the bytes that were read.
#[verifier::external_body]
pub(crate) fn parse_secret_key(bytes: &[u8; 32]) -> (secret: Option<[u8; 32]>)
    ensures
        match secret {
            Some(secret) => is_secret_key(bytes@) && secret@ == bytes@,
            None => !is_secret_key(bytes@),
        },
{
    match SecretKey::from_slice(bytes) {
        Ok(secret) => Some(secret.secret_bytes()),
        Err(_) => None,
    }
}

/// Computes a public key with `PublicKey::from_secret_key` of the `secp256k1` crate and
/// encodes it with `PublicKey::serialize`. The 33 bytes are a function of the secret key
/// alone.
#[verifier::external_body]
pub(crate) fn public_key(secret: &[u8; 32]) -> (public: [u8; 33])
    requires
        is_secret_key(secret@),
    ensures
        public@ == compressed_public_key(secret@),
{
    let secret_key = SecretKey::from_slice(secret).expect("a valid secret key");
    PublicKey::from_secret_key(&Secp256k1::new(), &secret_key).serialize()
}

/// Renders bytes with `hex::encode`: two lowercase digits for each byte, in order.
#[verifier::external_body]
pub(crate) fn hex_encode(bytes: &[u8]) -> (text: String)
    ensures
        text@ == hex_lower(bytes@),
{
    hex::encode(bytes)
}

/// The four bytes of `n`, least significant first.
pub open spec fn le_bytes(n: u32) -> Seq<u8> {
    seq![
        (n % 256) as u8,
        (n / 256 % 256) as u8,
        (n / 65_536 % 256) as u8,
        (n / 16_777_216) as u8,
    ]
}

/// What is hashed in attempt number `counter` to derive a value from `name`: the purpose of
/// the value, the name, and the number of the attempt.
pub open spec fn preimage(purpose: Seq<char>, name: Seq<char>, counter: u32) -> Seq<u8> {
    encode_utf8(purpose) + encode_utf8(name) + le_bytes(counter)
}

/// The digest of attempt number `counter` to derive a secret key from `name`.
pub open spec fn key_digest(name: Seq<char>, counter: u32) -> Seq<u8> {
    sha256_digest(preimage("zebra.local.genesis.key"@, name, counter))
}

/// The digest of attempt number `counter` to derive a network magic from `name`.
pub open spec fn magic_digest(name: Seq<char>, counter: u32) -> Seq<u8> {
    sha256_digest(preimage("zebra.local.genesis.magic"@, name, counter))
}

/// The first digest from attempt number `counter` on that is a secret key.
pub open spec fn first_key_from(name: Seq<char>, counter: nat) -> Option<Seq<u8>>
    decreases u32::MAX + 1 - counter,
{
    if counter > u32::MAX {
        None
    } else if is_secret_key(key_digest(name, counter as u32)) {
        Some(key_digest(name, counter as u32))
    } else {
        first_key_from(name, counter + 1)
    }
}

/// The secret key of `name`: the first digest that is one.
pub open spec fn key_of(name: Seq<char>) -> Option<Seq<u8>> {
    first_key_from(name, 0)
}

/// Whether `bytes` are the magic of one of the public networks: Mainnet, the default Testnet
/// or Regtest.
pub open spec fn is_public_magic(bytes: Seq<u8>) -> bool {
    ||| bytes == seq![0x24u8, 0xe9u8, 0x27u8, 0x64u8]
    ||| bytes == seq![0xfau8, 0x1au8, 0xf9u8, 0xbfu8]
    ||| bytes == seq![0xaau8, 0xe8u8, 0x3fu8, 0x5fu8]
}

/// The first digest start from attempt number `counter` on that no public network uses as its
/// magic.
pub open spec fn first_magic_from(name: Seq<char>, counter: nat) -> Option<Seq<u8>>
    decreases u32::MAX + 1 - counter,
{
    if counter > u32::MAX {
        None
    } else if !is_public_magic(magic_digest(name, counter as u32).take(4)) {
        Some(magic_digest(name, counter as u32).take(4))
    } else {
        first_magic_from(name, counter + 1)
    }
}

/// The magic of the network with the name `name`: the first four bytes of the first digest
/// that starts with no magic of a public network.
pub open spec fn magic_of(name: Seq<char>) -> Option<Seq<u8>> {
    first_magic_from(name, 0)
}

/// The RIPEMD-160 digest of the SHA-256 digest of `data`.
pub open spec fn hash160_of(data: Seq<u8>) -> Seq<u8> {
    ripemd160_digest(sha256_digest(data))
}

/// The four bytes that start each message of a network.
#[derive(Clone, Copy, Debug, PartialEq, Eq)]
pub struct Magic(pub [u8; 4]);

/// A transparent address that pays to the hash of a public key.
#[derive(Clone, Copy, Debug, PartialEq, Eq)]
pub struct Address {
    /// The kind of network that the address is for.
    pub network_kind: NetworkKind,
    /// The hash of the public key that is paid.
    pub pub_key_hash: [u8; 20],
}

/// A transparent script, as its bytes.
#[derive(Clone, Debug, PartialEq, Eq)]
pub struct Script(pub Vec<u8>);

/// The script that pays to the public key with the hash `pub_key_hash`: duplicate, hash,
/// compare with these 20 bytes, check the signature.
pub open spec fn pay_to_hash(pub_key_hash: Seq<u8>) -> Seq<u8> {
    seq![0x76u8, 0xa9u8, 0x14u8] + pub_key_hash + seq![0x88u8, 0xacu8]
}

impl Address {
    /// The address for the public key with the hash `pub_key_hash`.
    pub fn from_pub_key_hash(network_kind: NetworkKind, pub_key_hash: [u8; 20]) -> (address: Self)
        ensures
            address == (Address { network_kind, pub_key_hash }),
    {
        Address { network_kind, pub_key_hash }
    }

    /// The script that pays to this address.
    pub fn script(&self) -> (script: Script)
        ensures
            script.0@ == pay_to_hash(self.pub_key_hash@),
    {
        let mut bytes: Vec<u8> = Vec::new();
        bytes.push(0x76);
        bytes.push(0xa9);
        bytes.push(0x14);
        push_bytes(&mut bytes, &self.pub_key_hash);
        bytes.push(0x88);
        bytes.push(0xac);
        Script(bytes)
    }
}

/// Deterministic funded transparent key material derived from a name.
#[derive(Clone, Debug, PartialEq, Eq)]
pub struct FundedKeyMaterial {
    /// The name that the key was derived from.
    pub name: String,
    /// The secp256k1 private key bytes encoded in lowercase hex.
    pub secret_key_hex: String,
    /// The compressed secp256k1 public key encoded in lowercase hex.
    pub public_key_hex: String,
    /// The transparent address of this key.
    pub address: Address,
}

impl FundedKeyMaterial {
    /// Whether this is the material for a secret key and what was computed from it.
    pub open spec fn holds(
        self,
        name: Seq<char>,
        network_kind: NetworkKind,
        secret: Seq<u8>,
        public: Seq<u8>,
        pub_key_hash: Seq<u8>,
    ) -> bool {
        &&& self.name@ == name
        &&& self.secret_key_hex@ == hex_lower(secret)
        &&& self.public_key_hex@ == hex_lower(public)
        &&& self.address.network_kind == network_kind
        &&& self.address.pub_key_hash@ == pub_key_hash
    }

    /// Whether this is the material that `name` gives on a network of the given kind.
    pub open spec fn is_for(self, name: Seq<char>, network_kind: NetworkKind) -> bool {
        &&& key_of(name) matches Some(secret)
        &&& self.holds(
            name,
            network_kind,
            secret,
            compressed_public_key(secret),
            hash160_of(compressed_public_key(secret)),
        )
    }
}

/// Appends `bytes` to `out`.
pub(crate) fn push_bytes(out: &mut Vec<u8>, bytes: &[u8])
    ensures
        final(out)@ == old(out)@ + bytes@,
{
    let mut i: usize = 0;
    while i < bytes.len()
        invariant
            i <= bytes@.len(),
            out@ == old(out)@ + bytes@.take(i as int),
        decreases bytes.len() - i,
    {
        out.push(bytes[i]);
        i += 1;
    }
}

/// What is hashed in attempt number `counter` to derive a value from `name`.
fn hash_input(purpose: &str, name: &str, counter: u32) -> (bytes: Vec<u8>)
    ensures
        bytes@ == preimage(purpose@, name@, counter),
{
    let mut bytes: Vec<u8> = Vec::new();
    push_bytes(&mut bytes, purpose.as_bytes());
    push_bytes(&mut bytes, name.as_bytes());
    bytes.push((counter % 256) as u8);
    bytes.push((counter / 256 % 256) as u8);
    bytes.push((counter / 65_536 % 256) as u8);
    bytes.push((counter / 16_777_216) as u8);
    bytes
}

/// Derives a secret key from `name`: the first digest that is one.
///
/// Nothing comes back where no attempt gives a key.
pub fn secret_key_from_name(name: &str) -> (secret: Option<[u8; 32]>)
    ensures
        match key_of(name@) {
            Some(key) => secret matches Some(bytes) && bytes@ == key && is_secret_key(bytes@),
            None => secret is None,
        },
{
    let mut counter: u32 = 0;
    loop
        invariant
            key_of(name@) == first_key_from(name@, counter as nat),
        decreases u32::MAX - counter,
    {
        let input = hash_input("zebra.local.genesis.key", name, counter);
        let digest = sha256(input.as_slice());
        if let Some(secret) = parse_secret_key(&digest) {
            return Some(secret);
        }
        if counter == u32::MAX {
            assert(first_key_from(name@, counter as nat + 1) is None);
            return None;
        }
        counter += 1;
    }
}

/// Whether these are the magic of a public network.
fn public_magic(bytes: &[u8; 4]) -> (public: bool)
    ensures
        public == is_public_magic(bytes@),
{
    let public = (bytes[0] == 0x24 && bytes[1] == 0xe9 && bytes[2] == 0x27 && bytes[3] == 0x64) || (
    bytes[0] == 0xfa && bytes[1] == 0x1a && bytes[2] == 0xf9 && bytes[3] == 0xbf) || (bytes[0]
        == 0xaa && bytes[1] == 0xe8 && bytes[2] == 0x3f && bytes[3] == 0x5f);
    assert(bytes@ =~= seq![bytes@[0], bytes@[1], bytes@[2], bytes@[3]]);
    public
}

/// The network magic that a digest gives: its first four bytes, unless they are the magic of
/// a public network.
pub fn magic_from_digest(digest: &[u8; 32]) -> (magic: Option<Magic>)
    ensures
        if is_public_magic(digest@.take(4)) {
            magic is None
        } else {
            magic matches Some(m) && m.0@ == digest@.take(4)
        },
{
    let bytes: [u8; 4] = [digest[0], digest[1], digest[2], digest[3]];
    assert(bytes@ =~= digest@.take(4));
    if public_magic(&bytes) {
        None
    } else {
        Some(Magic(bytes))
    }
}

/// Derives a network magic from `network_name` that is none of the magics of the public
/// networks.
///
/// Nothing comes back where no attempt gives such a magic.
pub fn derive_network_magic(network_name: &str) -> (magic: Option<Magic>)
    ensures
        match magic_of(network_name@) {
            Some(bytes) => magic matches Some(m) && m.0@ == bytes && !is_public_magic(m.0@),
            None => magic is None,
        },
{
    let mut counter: u32 = 0;
    loop
        invariant
            magic_of(network_name@) == first_magic_from(network_name@, counter as nat),
        decreases u32::MAX - counter,
    {
        let input = hash_input("zebra.local.genesis.magic", network_name, counter);
        let digest = sha256(input.as_slice());
        let magic = magic_from_digest(&digest);
        if magic.is_some() {
            return magic;
        }
        if counter == u32::MAX {
            assert(first_magic_from(network_name@, counter as nat + 1) is None);
            return None;
        }
        counter += 1;
    }
}

/// The RIPEMD-160 digest of the SHA-256 digest of `data`.
pub fn hash160(data: &[u8]) -> (hash: [u8; 20])
    ensures
        hash@ == hash160_of(data@),
{
    let digest = sha256(data);
    ripemd160(&digest)
}

/// The key material for a secret key, its public key and the hash of that.
pub fn funded_key(
    name: &str,
    network_kind: NetworkKind,
    secret: &[u8; 32],
    public: &[u8; 33],
    pub_key_hash: [u8; 20],
) -> (key: FundedKeyMaterial)
    ensures
        key.holds(name@, network_kind, secret@, public@, pub_key_hash@),
{
    FundedKeyMaterial {
        name: name.to_owned(),
        secret_key_hex: hex_encode(secret),
        public_key_hex: hex_encode(public),
        address: Address::from_pub_key_hash(network_kind, pub_key_hash),
    }
}

/// Derives the key material of `name`.
///
/// Nothing comes back where the name gives no secret key.
pub fn funded_key_from_name(name: &str, network_kind: NetworkKind) -> (key: Option<
    FundedKeyMaterial,
>)
    ensures
        match key_of(name@) {
            Some(_) => key matches Some(material) && material.is_for(name@, network_kind),
            None => key is None,
        },
{
    match secret_key_from_name(name) {
        Some(secret) => {
            let public = public_key(&secret);
            let pub_key_hash = hash160(&public);
            Some(funded_key(name, network_kind, &secret, &public, pub_key_hash))
        },
        None => None,
    }
}

/// No derived magic is that of a public network.
pub proof fn law_derived_magics_are_private(name: Seq<char>)
    ensures
        magic_of(name) matches Some(magic) ==> !is_public_magic(magic),
{
    lemma_first_magic(name, 0);
}

proof fn lemma_first_magic(name: Seq<char>, counter: nat)
    ensures
        first_magic_from(name, counter) matches Some(magic) ==> !is_public_magic(magic),
    decreases u32::MAX + 1 - counter,
{
    if counter <= u32::MAX && is_public_magic(magic_digest(name, counter as u32).take(4)) {
        lemma_first_magic(name, counter + 1);
    }
}

/// A derived key is a valid secret key, and it comes from the first attempt that gives one.
pub proof fn law_derived_key_is_the_first_valid_one(name: Seq<char>, counter: u32)
    ensures
        is_secret_key(key_digest(name, counter)) && (forall|earlier: u32|
            earlier < counter ==> !is_secret_key(#[trigger] key_digest(name, earlier))) ==> key_of(
            name,
        ) == Some(key_digest(name, counter)),
        key_of(name) matches Some(key) ==> is_secret_key(key),
{
    lemma_first_key(name, 0);
    if is_secret_key(key_digest(name, counter)) && (forall|earlier: u32|
        earlier < counter ==> !is_secret_key(#[trigger] key_digest(name, earlier))) {
        lemma_skip_to_key(name, 0, counter);
    }
}

proof fn lemma_first_key(name: Seq<char>, counter: nat)
    ensures
        first_key_from(name, counter) matches Some(key) ==> is_secret_key(key),
    decreases u32::MAX + 1 - counter,
{
    if counter <= u32::MAX && !is_secret_key(key_digest(name, counter as u32)) {
        lemma_first_key(name, counter + 1);
    }
}

proof fn lemma_skip_to_key(name: Seq<char>, from: nat, counter: u32)
    requires
        from <= counter,
        is_secret_key(key_digest(name, counter)),
        forall|earlier: u32| earlier < counter ==> !is_secret_key(#[trigger] key_digest(name, earlier)),
    ensures
        first_key_from(name, from) == Some(key_digest(name, counter)),
    decreases counter - from,
{
    if from < counter {
        lemma_skip_to_key(name, from + 1, counter);
    }
}

}
