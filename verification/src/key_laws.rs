//! What is derived from names.

use crate::keys::{
    be_value, compressed_public_key, derive_network_magic, first_key_from, first_magic_from,
    funded_key, funded_key_from_name, hash160, is_public_magic, is_secret_key, key_digest, key_of,
    le_bytes, magic_digest, magic_from_digest, magic_of, preimage, ripemd160_digest,
    secret_key_from_name, sha256_digest, Address, FundedKeyMaterial, Magic, Script,
};
use crate::network::NetworkKind;
use crate::text_laws::{is_hexadecimal, lemma_hex_lower};
use vstd::prelude::*;
use vstd::utf8::encode_utf8;

verus! {

/// The number that `bytes` stand for, most significant first.
pub open spec fn big_endian(bytes: Seq<u8>) -> int {
    bytes.fold_left(0int, |value: int, byte: u8| value * 256 + byte)
}

/// The number that bytes stand for is the same whether it is taken in order or from the end.
pub proof fn lemma_big_endian(bytes: Seq<u8>)
    ensures
        big_endian(bytes) == be_value(bytes),
    decreases bytes.len(),
{
    if bytes.len() > 0 {
        lemma_big_endian(bytes.drop_last());
    }
}

/// Whether `bytes` are a secret key: 32 bytes that stand for a number above zero and below the
/// number of points of the secp256k1 curve.
pub open spec fn is_valid_key(bytes: Seq<u8>) -> bool {
    &&& bytes.len() == 32
    &&& 0 < big_endian(bytes)
    &&& big_endian(bytes)
        < 0xfffffffffffffffffffffffffffffffebaaedce6af48a03bbfd25e8cd0364141int
}

/// Whether `bytes` are the magic of Mainnet, of the default Testnet or of Regtest.
pub open spec fn is_taken(bytes: Seq<u8>) -> bool {
    ||| bytes == seq![0x24u8, 0xe9, 0x27, 0x64]
    ||| bytes == seq![0xfau8, 0x1a, 0xf9, 0xbf]
    ||| bytes == seq![0xaau8, 0xe8, 0x3f, 0x5f]
}

/// Whether `bytes` are the four bytes of `n`, least significant first.
pub open spec fn are_le_bytes(bytes: Seq<u8>, n: u32) -> bool {
    bytes.len() == 4 && bytes[0] + 256 * bytes[1] + 65_536 * bytes[2] + 16_777_216 * bytes[3] == n
}

/// Whether `digest` is the SHA-256 digest of the purpose, the name and the number of an attempt.
pub open spec fn is_attempt(
    digest: Seq<u8>,
    purpose: Seq<char>,
    name: Seq<char>,
    number: u32,
) -> bool {
    exists|bytes: Seq<u8>| #[trigger]
        are_le_bytes(bytes, number) && digest == sha256_digest(
            encode_utf8(purpose) + encode_utf8(name) + bytes,
        )
}

proof fn lemma_le_bytes(a: Seq<u8>, n: u32)
    requires
        are_le_bytes(a, n),
    ensures
        a == le_bytes(n),
{
    assert(a =~= le_bytes(n));
}

proof fn lemma_attempt(purpose: Seq<char>, name: Seq<char>, number: u32)
    ensures
        is_attempt(
            sha256_digest(preimage(purpose, name, number)),
            purpose,
            name,
            number,
        ),
        forall|digest: Seq<u8>| #[trigger]
            is_attempt(digest, purpose, name, number) ==> digest == sha256_digest(
                preimage(purpose, name, number),
            ),
{
    let bytes = le_bytes(number);
    assert(are_le_bytes(bytes, number));
    assert forall|digest: Seq<u8>| #[trigger]
        is_attempt(digest, purpose, name, number) implies digest == sha256_digest(
        preimage(purpose, name, number),
    ) by {
        let given = choose|bytes: Seq<u8>| #[trigger]
            are_le_bytes(bytes, number) && digest == sha256_digest(
                encode_utf8(purpose) + encode_utf8(name) + bytes,
            );
        lemma_le_bytes(given, number);
    }
}

proof fn lemma_first_key(name: Seq<char>, from: nat)
    ensures
        match first_key_from(name, from) {
            Some(key) => exists|number: u32|
                {
                    &&& from <= number
                    &&& #[trigger] key_digest(name, number) == key
                    &&& is_secret_key(key)
                    &&& forall|earlier: u32|
                        from <= earlier < number ==> !is_secret_key(
                            #[trigger] key_digest(name, earlier),
                        )
                },
            None => forall|number: u32|
                from <= number ==> !is_secret_key(#[trigger] key_digest(name, number)),
        },
    decreases u32::MAX + 1 - from,
{
    if from <= u32::MAX {
        if is_secret_key(key_digest(name, from as u32)) {
        } else {
            lemma_first_key(name, from + 1);
        }
    }
}

proof fn lemma_first_magic(name: Seq<char>, from: nat)
    ensures
        match first_magic_from(name, from) {
            Some(magic) => exists|number: u32|
                {
                    &&& from <= number
                    &&& (#[trigger] magic_digest(name, number)).take(4) == magic
                    &&& !is_public_magic(magic)
                    &&& forall|earlier: u32|
                        from <= earlier < number ==> is_public_magic(
                            (#[trigger] magic_digest(name, earlier)).take(4),
                        )
                },
            None => forall|number: u32|
                from <= number ==> is_public_magic((#[trigger] magic_digest(name, number)).take(4)),
        },
    decreases u32::MAX + 1 - from,
{
    if from <= u32::MAX {
        if is_public_magic(magic_digest(name, from as u32).take(4)) {
            lemma_first_magic(name, from + 1);
        }
    }
}

/// Whether `bytes` are the secret key of the first attempt that gives a valid one.
pub open spec fn is_first_key(name: Seq<char>, bytes: Seq<u8>, number: u32) -> bool {
    &&& is_attempt(bytes, "zebra.local.genesis.key"@, name, number)
    &&& is_valid_key(bytes)
    &&& forall|earlier: u32, digest: Seq<u8>|
        earlier < number && #[trigger] is_attempt(
            digest,
            "zebra.local.genesis.key"@,
            name,
            earlier,
        ) ==> !is_valid_key(digest)
}

/// The secret key of a name is the digest of the first attempt that gives a valid one, and there
/// is none only where no attempt gives one.
pub proof fn law_secret_keys_are_the_first_valid_ones(name: &str, secret: Option<[u8; 32]>)
    requires
        call_ensures(secret_key_from_name, (name,), secret),
    ensures
        match secret {
            Some(bytes) => exists|number: u32| #[trigger] is_first_key(name@, bytes@, number),
            None => forall|number: u32, digest: Seq<u8>|
                #[trigger] is_attempt(digest, "zebra.local.genesis.key"@, name@, number)
                    ==> !is_valid_key(digest),
        },
        secret is Some <==> key_of(name@) is Some,
        secret matches Some(bytes) ==> key_of(name@) == Some(bytes@),
{
    lemma_first_key(name@, 0);
    let purpose = "zebra.local.genesis.key"@;
    match secret {
        Some(bytes) => {
            let number = choose|number: u32|
                {
                    &&& #[trigger] key_digest(name@, number) == bytes@
                    &&& is_secret_key(bytes@)
                    &&& forall|earlier: u32|
                        0 <= earlier < number ==> !is_secret_key(
                            #[trigger] key_digest(name@, earlier),
                        )
                };
            lemma_attempt(purpose, name@, number);
            lemma_big_endian(bytes@);
            assert forall|earlier: u32, digest: Seq<u8>|
                earlier < number && #[trigger] is_attempt(
                    digest,
                    purpose,
                    name@,
                    earlier,
                ) implies !is_valid_key(digest) by {
                lemma_attempt(purpose, name@, earlier);
                lemma_big_endian(digest);
                assert(digest == key_digest(name@, earlier));
            }
            assert(is_first_key(name@, bytes@, number));
        },
        None => {
            assert forall|number: u32, digest: Seq<u8>|
                #[trigger] is_attempt(digest, purpose, name@, number) implies !is_valid_key(
                digest,
            ) by {
                lemma_attempt(purpose, name@, number);
                lemma_big_endian(digest);
                assert(digest == key_digest(name@, number));
            }
        },
    }
}

/// Whether `bytes` start the digest of the first attempt that starts with no taken magic.
pub open spec fn is_first_magic(name: Seq<char>, bytes: Seq<u8>, number: u32) -> bool {
    &&& exists|digest: Seq<u8>| #[trigger]
        is_attempt(digest, "zebra.local.genesis.magic"@, name, number) && bytes == digest.take(4)
    &&& !is_taken(bytes)
    &&& forall|earlier: u32, digest: Seq<u8>|
        earlier < number && #[trigger] is_attempt(
            digest,
            "zebra.local.genesis.magic"@,
            name,
            earlier,
        ) ==> is_taken(digest.take(4))
}

/// The magic of a network is the start of the digest of the first attempt that starts with no
/// magic of a public network, and there is none only where every attempt starts with one.
pub proof fn law_magics_are_the_first_free_ones(name: &str, magic: Option<Magic>)
    requires
        call_ensures(derive_network_magic, (name,), magic),
    ensures
        match magic {
            Some(m) => exists|number: u32| #[trigger] is_first_magic(name@, m.0@, number),
            None => forall|number: u32, digest: Seq<u8>|
                #[trigger] is_attempt(digest, "zebra.local.genesis.magic"@, name@, number)
                    ==> is_taken(digest.take(4)),
        },
        magic is Some <==> magic_of(name@) is Some,
        magic matches Some(m) ==> magic_of(name@) == Some(m.0@),
{
    lemma_first_magic(name@, 0);
    let purpose = "zebra.local.genesis.magic"@;
    match magic {
        Some(m) => {
            let number = choose|number: u32|
                {
                    &&& (#[trigger] magic_digest(name@, number)).take(4) == m.0@
                    &&& !is_public_magic(m.0@)
                    &&& forall|earlier: u32|
                        0 <= earlier < number ==> is_public_magic(
                            (#[trigger] magic_digest(name@, earlier)).take(4),
                        )
                };
            lemma_attempt(purpose, name@, number);
            assert(is_attempt(magic_digest(name@, number), purpose, name@, number));
            assert forall|earlier: u32, digest: Seq<u8>|
                earlier < number && #[trigger] is_attempt(
                    digest,
                    purpose,
                    name@,
                    earlier,
                ) implies is_taken(digest.take(4)) by {
                lemma_attempt(purpose, name@, earlier);
                assert(digest == magic_digest(name@, earlier));
            }
            assert(is_first_magic(name@, m.0@, number));
        },
        None => {
            assert forall|number: u32, digest: Seq<u8>|
                #[trigger] is_attempt(digest, purpose, name@, number) implies is_taken(
                digest.take(4),
            ) by {
                lemma_attempt(purpose, name@, number);
                assert(digest == magic_digest(name@, number));
            }
        },
    }
}

/// A digest gives its first four bytes as a magic, unless a public network has them.
pub proof fn law_digests_give_free_magics(digest: &[u8; 32], magic: Option<Magic>)
    requires
        call_ensures(magic_from_digest, (digest,), magic),
    ensures
        magic is None <==> is_taken(seq![digest@[0], digest@[1], digest@[2], digest@[3]]),
        magic matches Some(m) ==> m.0@ == seq![digest@[0], digest@[1], digest@[2], digest@[3]],
{
    assert(digest@.take(4) =~= seq![digest@[0], digest@[1], digest@[2], digest@[3]]);
}

/// The script of an address pays to the hash of its public key: it duplicates the key, hashes
/// it, compares the hash with the 20 bytes of the address and checks the signature.
pub proof fn law_scripts_pay_to_their_address(
    network_kind: NetworkKind,
    pub_key_hash: [u8; 20],
    address: Address,
    script: Script,
)
    requires
        call_ensures(Address::from_pub_key_hash, (network_kind, pub_key_hash), address),
        call_ensures(Address::script, (&address,), script),
    ensures
        address.network_kind == network_kind,
        address.pub_key_hash@ == pub_key_hash@,
        script.0@.len() == 25,
        script.0@.take(3) == seq![0x76u8, 0xa9, 20],
        script.0@.subrange(3, 23) == pub_key_hash@,
        script.0@.skip(23) == seq![0x88u8, 0xac],
{
    assert(script.0@.take(3) =~= seq![0x76u8, 0xa9, 20]);
    assert(script.0@.subrange(3, 23) =~= pub_key_hash@);
    assert(script.0@.skip(23) =~= seq![0x88u8, 0xac]);
}

/// A public key is hashed with SHA-256 first and with RIPEMD-160 then.
pub proof fn law_keys_are_hashed_twice(data: &[u8], hash: [u8; 20])
    requires
        call_ensures(hash160, (data,), hash),
    ensures
        hash@ == ripemd160_digest(sha256_digest(data@)),
{
}

/// Key material shows the name, both keys in lowercase hexadecimal, and the address of the hash.
pub proof fn law_material_shows_the_keys(
    name: &str,
    network_kind: NetworkKind,
    secret: &[u8; 32],
    public: &[u8; 33],
    pub_key_hash: [u8; 20],
    key: FundedKeyMaterial,
)
    requires
        call_ensures(funded_key, (name, network_kind, secret, public, pub_key_hash), key),
    ensures
        key.name@ == name@,
        is_hexadecimal(key.secret_key_hex@, secret@),
        is_hexadecimal(key.public_key_hex@, public@),
        key.address.network_kind == network_kind,
        key.address.pub_key_hash@ == pub_key_hash@,
{
    lemma_hex_lower(secret@);
    lemma_hex_lower(public@);
}

/// The key material of a name is that of its secret key, and a name without a secret key has
/// none.
pub proof fn law_names_give_the_material_of_their_keys(
    name: &str,
    network_kind: NetworkKind,
    secret: Option<[u8; 32]>,
    key: Option<FundedKeyMaterial>,
)
    requires
        call_ensures(secret_key_from_name, (name,), secret),
        call_ensures(funded_key_from_name, (name, network_kind), key),
    ensures
        key is Some <==> secret is Some,
        secret matches Some(bytes) ==> (key matches Some(material) && {
            let public = compressed_public_key(bytes@);
            &&& material.name@ == name@
            &&& is_hexadecimal(material.secret_key_hex@, bytes@)
            &&& is_hexadecimal(material.public_key_hex@, public)
            &&& material.address.network_kind == network_kind
            &&& material.address.pub_key_hash@ == ripemd160_digest(sha256_digest(public))
        }),
{
    if let Some(bytes) = secret {
        lemma_hex_lower(bytes@);
        lemma_hex_lower(compressed_public_key(bytes@));
    }
}

}
