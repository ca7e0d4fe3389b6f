//! The rules of a generated local Testnet: its options, names, network parameters, coinbase
//! transactions and header commitments.

use crate::chain_parts::ChainParts;
use crate::keys::{derive_network_magic, magic_of, push_bytes, Magic, Script};
use crate::network::{upgrade_name, ConfiguredActivationHeights, Height, NetworkUpgrade};
use crate::text::{contains_name, decimal, push_decimal, trim, trimmed};
use crate::timestamp::Timestamp;
use vstd::prelude::*;

verus! {

/// The number of blocks after which a coinbase output can be spent.
pub const MIN_TRANSPARENT_COINBASE_MATURITY: u32 = 100;

/// Options for generating a local Testnet chain.
#[derive(Clone, Debug)]
pub struct LocalTestnetGenesisOptions {
    /// The configured testnet name.
    pub network_name: String,
    /// Optional network magic. If `None`, a deterministic magic is derived from `network_name`.
    pub network_magic: Option<Magic>,
    /// The upgrade that activates at `latest_upgrade_height`.
    ///
    /// Supported values are `Nu5`, `Nu6`, and `Nu6_1`.
    pub latest_network_upgrade: NetworkUpgrade,
    /// Activation height for all upgrades through `latest_network_upgrade`.
    ///
    /// Must be above height 0.
    pub latest_upgrade_height: Height,
    /// Number of blocks to generate after genesis.
    ///
    /// A value of `100` means generated chain heights are `0..=100`.
    pub premined_block_count: u32,
    /// Block time used for genesis.
    pub start_time: Timestamp,
    /// If true, generated network parameters disable proof of work checks.
    ///
    /// Only `true` is supported.
    pub disable_pow: bool,
}

impl LocalTestnetGenesisOptions {
    /// Whether these are the default options.
    pub open spec fn is_default(self) -> bool {
        &&& self.network_name@ == "LocalGenesisNet"@
        &&& self.network_magic is None
        &&& self.latest_network_upgrade == NetworkUpgrade::Nu6_1
        &&& self.latest_upgrade_height == Height(1)
        &&& self.premined_block_count == MIN_TRANSPARENT_COINBASE_MATURITY
        &&& self.start_time.secs_view() == 1_700_000_000
        &&& self.start_time.nanos_view() == 0
        &&& self.disable_pow
    }
}

impl Default for LocalTestnetGenesisOptions {
    fn default() -> (options: Self)
        ensures
            options.is_default(),
    {
        LocalTestnetGenesisOptions {
            network_name: "LocalGenesisNet".to_owned(),
            network_magic: None,
            latest_network_upgrade: NetworkUpgrade::Nu6_1,
            latest_upgrade_height: Height(1),
            premined_block_count: MIN_TRANSPARENT_COINBASE_MATURITY,
            start_time: Timestamp::new(1_700_000_000, 0).unwrap(),
            disable_pow: true,
        }
    }
}

/// Errors of local Testnet generation.
#[derive(Debug, PartialEq, Eq)]
pub enum LocalGenesisError {
    /// There are no names.
    EmptyNames,
    /// A name occurs twice.
    DuplicateName(String),
    /// A name is empty.
    EmptyName,
    /// The upgrades would activate at genesis.
    InvalidLatestUpgradeHeight,
    /// The latest upgrade is not supported.
    UnsupportedLatestUpgrade(NetworkUpgrade),
    /// Proof of work cannot be enabled.
    UnsupportedPowMode,
    /// A block commits to a chain history that has no root yet.
    MissingHistoryTree(Height),
    /// The network parameters were refused.
    Parameters(String),
    /// The block subsidy could not be computed.
    Subsidy(String),
    /// The chain history could not be extended.
    HistoryTree(String),
    /// The time of a block would lie outside the calendar.
    TimeOutOfRange(Height),
    /// No key or magic can be derived from a name.
    ExhaustedDerivation(String),
}

impl LocalGenesisError {
    /// What went wrong, in words.
    pub open spec fn text(self) -> Seq<char> {
        match self {
            LocalGenesisError::EmptyNames => "at least one non-empty funded key name is required"@,
            LocalGenesisError::DuplicateName(name) => "found duplicate funded key name: "@ + name@,
            LocalGenesisError::EmptyName => "funded key names must not be empty"@,
            LocalGenesisError::InvalidLatestUpgradeHeight =>
                "latest upgrade height must be greater than 0"@,
            LocalGenesisError::UnsupportedLatestUpgrade(upgrade) =>
                "unsupported latest network upgrade for this tool: "@ + upgrade_name(upgrade),
            LocalGenesisError::UnsupportedPowMode =>
                "this generator currently supports disable_pow=true only"@,
            LocalGenesisError::MissingHistoryTree(height) =>
                "missing history tree root while building commitment at height Height("@ + decimal(
                    height.0 as nat,
                ) + ")"@,
            LocalGenesisError::Parameters(reason) =>
                "failed to build configured testnet parameters: "@ + reason@,
            LocalGenesisError::Subsidy(reason) => reason@,
            LocalGenesisError::HistoryTree(reason) => reason@,
            LocalGenesisError::TimeOutOfRange(height) =>
                "block time out of range at height Height("@ + decimal(height.0 as nat) + ")"@,
            LocalGenesisError::ExhaustedDerivation(name) =>
                "nothing can be derived from the name: "@ + name@,
        }
    }

    /// What went wrong, in words.
    pub fn message(&self) -> (message: String)
        ensures
            message@ == self.text(),
    {
        let mut message = match self {
            LocalGenesisError::EmptyNames => "at least one non-empty funded key name is required",
            LocalGenesisError::DuplicateName(_) => "found duplicate funded key name: ",
            LocalGenesisError::EmptyName => "funded key names must not be empty",
            LocalGenesisError::InvalidLatestUpgradeHeight =>
                "latest upgrade height must be greater than 0",
            LocalGenesisError::UnsupportedLatestUpgrade(_) =>
                "unsupported latest network upgrade for this tool: ",
            LocalGenesisError::UnsupportedPowMode =>
                "this generator currently supports disable_pow=true only",
            LocalGenesisError::MissingHistoryTree(_) =>
                "missing history tree root while building commitment at height Height(",
            LocalGenesisError::Parameters(_) => "failed to build configured testnet parameters: ",
            LocalGenesisError::Subsidy(_) => "",
            LocalGenesisError::HistoryTree(_) => "",
            LocalGenesisError::TimeOutOfRange(_) => "block time out of range at height Height(",
            LocalGenesisError::ExhaustedDerivation(_) => "nothing can be derived from the name: ",
        }.to_owned();
        match self {
            LocalGenesisError::DuplicateName(name) => message.append(name.as_str()),
            LocalGenesisError::UnsupportedLatestUpgrade(upgrade) => message.append(upgrade.name()),
            LocalGenesisError::MissingHistoryTree(height)
            | LocalGenesisError::TimeOutOfRange(height) => {
                push_decimal(&mut message, height.0 as u64);
                message.append(")");
            },
            LocalGenesisError::Parameters(reason) => message.append(reason.as_str()),
            LocalGenesisError::Subsidy(reason) => message.append(reason.as_str()),
            LocalGenesisError::HistoryTree(reason) => message.append(reason.as_str()),
            LocalGenesisError::ExhaustedDerivation(name) => message.append(name.as_str()),
            _ => {},
        }
        proof {
            reveal_strlit("");
        }
        message
    }
}

/// The names without the white space around them.
pub open spec fn trimmed_names(names: Seq<String>) -> Seq<Seq<char>> {
    Seq::new(names.len(), |i: int| trimmed(names[i]@))
}

/// Whether the name at `i` cannot be accepted after those before it: it is empty, or it is
/// one of them.
pub open spec fn is_bad_name(names: Seq<Seq<char>>, i: int) -> bool {
    names[i].len() == 0 || exists|j: int| 0 <= j < i && #[trigger] names[j] == names[i]
}

/// The place of the first name from `i` on that cannot be accepted.
pub open spec fn first_bad_name(names: Seq<Seq<char>>, i: int) -> Option<int>
    decreases names.len() - i,
{
    if i >= names.len() {
        None
    } else if is_bad_name(names, i) {
        Some(i)
    } else {
        first_bad_name(names, i + 1)
    }
}

/// Whether `error` is what is wrong with the names.
pub open spec fn is_name_error(names: Seq<Seq<char>>, error: LocalGenesisError) -> bool {
    match first_bad_name(names, 0) {
        Some(i) => if names[i].len() == 0 {
            error is EmptyName
        } else {
            error matches LocalGenesisError::DuplicateName(name) && name@ == names[i]
        },
        None => names.len() == 0 && error is EmptyNames,
    }
}

/// Whether the names can be accepted: there is one, none is empty and none occurs twice.
pub open spec fn are_good_names(names: Seq<Seq<char>>) -> bool {
    names.len() > 0 && first_bad_name(names, 0) is None
}

/// The characters of each name.
pub open spec fn views(names: Seq<String>) -> Seq<Seq<char>> {
    Seq::new(names.len(), |i: int| names[i]@)
}

/// Trims the names and checks that there is one, that none is empty and that none occurs
/// twice.
pub fn ordered_names(names: &Vec<String>) -> (checked: Result<Vec<String>, LocalGenesisError>)
    ensures
        match checked {
            Ok(ordered) => are_good_names(trimmed_names(names@)) && views(ordered@)
                == trimmed_names(names@),
            Err(error) => is_name_error(trimmed_names(names@), error),
        },
{
    let mut ordered: Vec<String> = Vec::new();
    let ghost trimmed_all = trimmed_names(names@);
    let mut i: usize = 0;
    while i < names.len()
        invariant
            i <= names@.len(),
            trimmed_all == trimmed_names(names@),
            ordered@.len() == i,
            forall|k: int| 0 <= k < i ==> (#[trigger] ordered@[k])@ == trimmed_all[k],
            first_bad_name(trimmed_all, 0) == first_bad_name(trimmed_all, i as int),
        decreases names.len() - i,
    {
        let name = trim(names[i].as_str());
        if name.as_str().unicode_len() == 0 {
            return Err(LocalGenesisError::EmptyName);
        }
        if contains_name(&ordered, name.as_str()) {
            proof {
                let j = choose|j: int| 0 <= j < ordered@.len() && (#[trigger] ordered@[j])@ == name@;
            }
            return Err(LocalGenesisError::DuplicateName(name));
        }
        assert(!is_bad_name(trimmed_all, i as int)) by {
            if exists|j: int| 0 <= j < i && #[trigger] trimmed_all[j] == trimmed_all[i as int] {
                let j = choose|j: int|
                    0 <= j < i && #[trigger] trimmed_all[j] == trimmed_all[i as int];
                assert(ordered@[j]@ == name@);
            }
        }
        ordered.push(name);
        i += 1;
    }
    if ordered.len() == 0 {
        return Err(LocalGenesisError::EmptyNames);
    }
    Ok(ordered)
}

/// The hash of a block.
#[derive(Clone, Copy, Debug, PartialEq, Eq)]
pub struct BlockHash(pub [u8; 32]);

/// An amount of money that is not negative.
#[derive(Clone, Copy, Debug, PartialEq, Eq, Structural)]
pub struct Amount {
    zatoshis: i64,
}

impl Amount {
    #[verifier::type_invariant]
    spec fn is_not_negative(self) -> bool {
        0 <= self.zatoshis
    }

    /// The amount in the smallest units.
    pub closed spec fn value(self) -> int {
        self.zatoshis as int
    }

    /// The amount of this many of the smallest units, if that is not negative.
    pub fn new(zatoshis: i64) -> (amount: Option<Amount>)
        ensures
            match amount {
                Some(amount) => 0 <= zatoshis && amount.value() == zatoshis,
                None => zatoshis < 0,
            },
    {
        if zatoshis < 0 {
            None
        } else {
            Some(Amount { zatoshis })
        }
    }

    /// The amount in the smallest units.
    pub fn zatoshis(&self) -> (zatoshis: i64)
        ensures
            zatoshis == self.value(),
            0 <= zatoshis,
    {
        proof {
            use_type_invariant(self);
        }
        self.zatoshis
    }
}

/// The header of a generated block.
///
/// Its version and its solution are the same in all generated blocks.
#[derive(Clone, Copy, Debug, PartialEq, Eq)]
pub struct Header {
    /// The hash of the block before it.
    pub previous_block_hash: BlockHash,
    /// The root of the Merkle tree of the block's transactions.
    pub merkle_root: [u8; 32],
    /// What the header commits to besides the transactions.
    pub commitment_bytes: [u8; 32],
    /// The time of the block.
    pub time: Timestamp,
    /// The difficulty target, in compact form.
    pub difficulty_threshold: u32,
    /// The nonce.
    pub nonce: [u8; 32],
}

/// A generated block with transactions of the type `T`.
#[derive(Clone, Debug, PartialEq, Eq)]
pub struct Block<T> {
    /// The header.
    pub header: Header,
    /// The transactions, the coinbase transaction first.
    pub transactions: Vec<T>,
}

/// The hash that genesis gives for the block before it: zeros.
pub open spec fn genesis_previous_hash() -> Seq<u8> {
    Seq::new(32, |i: int| 0u8)
}

/// The hash that stands for genesis until it is known: ones.
pub open spec fn placeholder_hash() -> Seq<u8> {
    Seq::new(32, |i: int| 1u8)
}

/// The parameters of a generated network.
#[derive(Clone, Debug, PartialEq, Eq)]
pub struct Network {
    /// The name of the network.
    pub network_name: String,
    /// The bytes that start each message of the network.
    pub network_magic: Magic,
    /// The hash of the genesis block.
    pub genesis_hash: BlockHash,
    /// The heights at which upgrades activate.
    pub activation_heights: ConfiguredActivationHeights,
    /// The end of the slow start of the block subsidy.
    pub slow_start_interval: Height,
    /// The number of funding streams.
    pub funding_stream_count: u32,
    /// The number of one-time lockbox disbursements.
    pub lockbox_disbursement_count: u32,
    /// The easiest difficulty target, most significant byte first.
    pub target_difficulty_limit: [u8; 32],
    /// The number of blocks between halvings of the block subsidy.
    pub halving_interval: i64,
    /// Whether proof of work is not checked.
    pub disable_pow: bool,
    /// Whether coinbase outputs can be spent to transparent outputs.
    pub unshielded_coinbase_spends: bool,
    /// The heights and hashes of the blocks that the network is known to hold.
    pub checkpoints: Vec<(Height, BlockHash)>,
}

/// The activation heights where all upgrades through `latest` activate at `height`.
pub open spec fn heights_through(latest: NetworkUpgrade, height: Height) -> Option<
    ConfiguredActivationHeights,
> {
    let through_nu5 = ConfiguredActivationHeights {
        before_overwinter: None,
        overwinter: Some(height.0),
        sapling: Some(height.0),
        blossom: Some(height.0),
        heartwood: Some(height.0),
        canopy: Some(height.0),
        nu5: Some(height.0),
        nu6: None,
        nu6_1: None,
        nu7: None,
    };
    match latest {
        NetworkUpgrade::Nu5 => Some(through_nu5),
        NetworkUpgrade::Nu6 => Some(
            (ConfiguredActivationHeights { nu6: Some(height.0), ..through_nu5 }),
        ),
        NetworkUpgrade::Nu6_1 => Some(
            (ConfiguredActivationHeights {
                nu6: Some(height.0),
                nu6_1: Some(height.0),
                ..through_nu5
            }),
        ),
        _ => None,
    }
}

/// The activation heights where all upgrades through `latest_upgrade` activate at
/// `activation_height`.
pub fn activation_heights_for_latest_upgrade(
    latest_upgrade: NetworkUpgrade,
    activation_height: Height,
) -> (configured: Result<ConfiguredActivationHeights, LocalGenesisError>)
    ensures
        match heights_through(latest_upgrade, activation_height) {
            Some(heights) => configured == Ok::<_, LocalGenesisError>(heights),
            None => configured == Err::<ConfiguredActivationHeights, _>(
                LocalGenesisError::UnsupportedLatestUpgrade(latest_upgrade),
            ),
        },
{
    let height: u32 = activation_height.0;
    let mut configured = ConfiguredActivationHeights {
        before_overwinter: None,
        overwinter: Some(height),
        sapling: Some(height),
        blossom: Some(height),
        heartwood: Some(height),
        canopy: Some(height),
        nu5: Some(height),
        nu6: None,
        nu6_1: None,
        nu7: None,
    };
    match latest_upgrade {
        NetworkUpgrade::Nu5 => {},
        NetworkUpgrade::Nu6 => {
            configured.nu6 = Some(height);
        },
        NetworkUpgrade::Nu6_1 => {
            configured.nu6 = Some(height);
            configured.nu6_1 = Some(height);
        },
        unsupported => {
            return Err(LocalGenesisError::UnsupportedLatestUpgrade(unsupported));
        },
    }
    Ok(configured)
}

impl LocalTestnetGenesisOptions {
    /// The magic of the network: the given one, or the one that its name gives.
    pub open spec fn magic(self) -> Option<Seq<u8>> {
        match self.network_magic {
            Some(magic) => Some(magic.0@),
            None => magic_of(self.network_name@),
        }
    }

    /// The activation heights of the network.
    pub open spec fn heights(self) -> Option<ConfiguredActivationHeights> {
        heights_through(self.latest_network_upgrade, self.latest_upgrade_height)
    }
}

impl Network {
    /// Whether these are the parameters that the options give with a genesis block and
    /// checkpoints.
    pub open spec fn is_for(
        self,
        options: LocalTestnetGenesisOptions,
        genesis_hash: Seq<u8>,
        checkpoints: Seq<(Height, BlockHash)>,
    ) -> bool {
        &&& self.network_name@ == options.network_name@
        &&& options.magic() == Some(self.network_magic.0@)
        &&& self.genesis_hash.0@ == genesis_hash
        &&& options.heights() == Some(self.activation_heights)
        &&& self.slow_start_interval == Height(0)
        &&& self.funding_stream_count == 0
        &&& self.lockbox_disbursement_count == 0
        &&& self.target_difficulty_limit@ == Seq::new(32, |i: int| 0x0fu8)
        &&& self.halving_interval == 144
        &&& self.disable_pow == options.disable_pow
        &&& self.unshielded_coinbase_spends
        &&& self.checkpoints@ == checkpoints
    }
}

/// Whether `error` is why the options give no network parameters.
pub open spec fn is_parameter_error(
    options: LocalTestnetGenesisOptions,
    error: LocalGenesisError,
) -> bool {
    if options.magic() is None {
        error matches LocalGenesisError::ExhaustedDerivation(name) && name@ == options.network_name@
    } else {
        options.heights() is None && error == LocalGenesisError::UnsupportedLatestUpgrade(
            options.latest_network_upgrade,
        )
    }
}

/// Whether `error` is why there is no network with a genesis block and checkpoints: the options
/// give no parameters, or `parts` refuse those that they give.
pub open spec fn is_network_error<P: ChainParts>(
    parts: P,
    options: LocalTestnetGenesisOptions,
    genesis_hash: Seq<u8>,
    checkpoints: Seq<(Height, BlockHash)>,
    error: LocalGenesisError,
) -> bool {
    if options.magic() is None || options.heights() is None {
        is_parameter_error(options, error)
    } else {
        exists|network: Network, reason: String|
            {
                &&& network.is_for(options, genesis_hash, checkpoints)
                &&& #[trigger] call_ensures(
                    P::network_fault,
                    (&parts, &network),
                    Some::<String>(reason),
                )
                &&& error == LocalGenesisError::Parameters(reason)
            }
    }
}

/// Builds the parameters of the network that the options ask for, and has them checked by
/// `parts`.
pub fn build_network_parameters<P: ChainParts>(
    options: &LocalTestnetGenesisOptions,
    genesis_hash: BlockHash,
    checkpoints: Vec<(Height, BlockHash)>,
    parts: &P,
) -> (network: Result<Network, LocalGenesisError>)
    ensures
        match network {
            Ok(network) => {
                &&& network.is_for(*options, genesis_hash.0@, checkpoints@)
                &&& call_ensures(P::network_fault, (parts, &network), None::<String>)
            },
            Err(error) => is_network_error(
                *parts,
                *options,
                genesis_hash.0@,
                checkpoints@,
                error,
            ),
        },
{
    let network_magic = match options.network_magic {
        Some(magic) => magic,
        None => match derive_network_magic(options.network_name.as_str()) {
            Some(magic) => magic,
            None => {
                return Err(LocalGenesisError::ExhaustedDerivation(options.network_name.clone()));
            },
        },
    };
    let activation_heights = match activation_heights_for_latest_upgrade(
        options.latest_network_upgrade,
        options.latest_upgrade_height,
    ) {
        Ok(heights) => heights,
        Err(error) => {
            return Err(error);
        },
    };
    let network = Network {
        network_name: options.network_name.clone(),
        network_magic,
        genesis_hash,
        activation_heights,
        slow_start_interval: Height(0),
        funding_stream_count: 0,
        lockbox_disbursement_count: 0,
        target_difficulty_limit: [0x0f;32],
        halving_interval: 144,
        disable_pow: options.disable_pow,
        unshielded_coinbase_spends: true,
        checkpoints,
    };
    assert(network.target_difficulty_limit@ =~= Seq::new(32, |i: int| 0x0fu8));
    match parts.network_fault(&network) {
        None => Ok(network),
        Some(reason) => Err(LocalGenesisError::Parameters(reason)),
    }
}

/// What recipient number `i` of `count` gets of `total`: an equal part, and one more for the
/// first ones while something is left over.
pub open spec fn share(total: int, count: int, i: int) -> int {
    total / count + if i < total % count {
        1int
    } else {
        0
    }
}

/// Splits the block subsidy among the scripts, as evenly as it can be, with what is left over
/// going to the first ones.
pub fn distribute_subsidy(subsidy: i64, scripts: &Vec<Script>) -> (outputs: Vec<(i64, Script)>)
    requires
        0 <= subsidy,
        0 < scripts@.len() <= i64::MAX,
    ensures
        outputs@.len() == scripts@.len(),
        forall|i: int|
            0 <= i < scripts@.len() ==> (#[trigger] outputs@[i]).0 == share(
                subsidy as int,
                scripts@.len() as int,
                i,
            ) && outputs@[i].1.0@ == scripts@[i].0@,
{
    let recipient_count: i64 = scripts.len() as i64;
    let base: i64 = subsidy / recipient_count;
    let leftover: i64 = subsidy % recipient_count;
    assert(0 <= base && base + leftover <= subsidy) by (nonlinear_arith)
        requires
            subsidy >= 0,
            recipient_count > 0,
            base == subsidy / recipient_count,
            leftover == subsidy % recipient_count,
    ;
    let mut remainder: i64 = leftover;
    let mut outputs: Vec<(i64, Script)> = Vec::new();
    let mut i: usize = 0;
    while i < scripts.len()
        invariant
            i <= scripts@.len() <= i64::MAX,
            recipient_count == scripts@.len(),
            recipient_count > 0,
            subsidy >= 0,
            base == subsidy / recipient_count,
            leftover == subsidy % recipient_count,
            0 <= base,
            base + 1 <= i64::MAX || leftover == 0,
            remainder == if i < leftover {
                leftover - i
            } else {
                0
            },
            outputs@.len() == i,
            forall|k: int|
                0 <= k < i ==> (#[trigger] outputs@[k]).0 == share(
                    subsidy as int,
                    scripts@.len() as int,
                    k,
                ) && outputs@[k].1.0@ == scripts@[k].0@,
        decreases scripts.len() - i,
    {
        let mut amount: i64 = base;
        if remainder > 0 {
            amount += 1;
            remainder -= 1;
        }
        let bytes = scripts[i].0.clone();
        outputs.push((amount, Script(bytes)));
        i += 1;
    }
    outputs
}

/// The version of a coinbase transaction.
#[derive(Clone, Copy, Debug, PartialEq, Eq, Structural)]
pub enum CoinbaseVersion {
    V1,
    V4,
    V5,
}

/// The coinbase transaction that a block is to hold.
#[derive(Debug, PartialEq, Eq)]
pub enum CoinbasePlan {
    /// The coinbase transaction of the Regtest genesis block.
    RegtestGenesis,
    /// A new coinbase transaction.
    Mined {
        /// The version of the transaction.
        version: CoinbaseVersion,
        /// The height of the block.
        height: Height,
        /// The amounts that are paid, and the scripts that they are paid to.
        outputs: Vec<(i64, Script)>,
        /// The data in the coinbase input.
        miner_data: Vec<u8>,
    },
}

/// The version of the coinbase transactions under `upgrade`.
pub open spec fn coinbase_version(upgrade: NetworkUpgrade) -> CoinbaseVersion {
    match upgrade {
        NetworkUpgrade::Nu5 | NetworkUpgrade::Nu6 | NetworkUpgrade::Nu6_1
        | NetworkUpgrade::Nu7 => CoinbaseVersion::V5,
        NetworkUpgrade::Sapling | NetworkUpgrade::Blossom | NetworkUpgrade::Heartwood
        | NetworkUpgrade::Canopy => CoinbaseVersion::V4,
        NetworkUpgrade::Genesis | NetworkUpgrade::BeforeOverwinter
        | NetworkUpgrade::Overwinter => CoinbaseVersion::V1,
    }
}

/// What miners of generated blocks write into the coinbase input.
pub open spec fn miner_data() -> Seq<u8> {
    vstd::utf8::encode_utf8("zebra-local-genesis"@)
}

impl CoinbasePlan {
    /// Whether this is the coinbase transaction at `height` that pays `outputs`.
    pub open spec fn is_for(
        self,
        heights: ConfiguredActivationHeights,
        height: Height,
        outputs: Seq<(i64, Script)>,
    ) -> bool {
        match self {
            CoinbasePlan::RegtestGenesis => height == Height(0),
            CoinbasePlan::Mined { version, height: h, outputs: o, miner_data: data } => {
                &&& height != Height(0)
                &&& version == coinbase_version(heights.upgrade_at(height))
                &&& h == height
                &&& o@ == outputs
                &&& data@ == miner_data()
            },
        }
    }
}

/// The coinbase transaction of the block at `height`, which pays `outputs`: that of the
/// Regtest genesis block at height 0, and a new one in the version of the height's upgrade
/// above.
pub fn coinbase_transaction_for_height(
    heights: &ConfiguredActivationHeights,
    height: Height,
    outputs: Vec<(i64, Script)>,
) -> (coinbase: CoinbasePlan)
    ensures
        coinbase.is_for(*heights, height, outputs@),
{
    if height.0 == 0 {
        return CoinbasePlan::RegtestGenesis;
    }
    let mut miner_data: Vec<u8> = Vec::new();
    push_bytes(&mut miner_data, "zebra-local-genesis".as_bytes());
    let version = match NetworkUpgrade::current(heights, height) {
        NetworkUpgrade::Nu5 | NetworkUpgrade::Nu6 | NetworkUpgrade::Nu6_1
        | NetworkUpgrade::Nu7 => CoinbaseVersion::V5,
        NetworkUpgrade::Sapling | NetworkUpgrade::Blossom | NetworkUpgrade::Heartwood
        | NetworkUpgrade::Canopy => CoinbaseVersion::V4,
        NetworkUpgrade::Genesis | NetworkUpgrade::BeforeOverwinter
        | NetworkUpgrade::Overwinter => CoinbaseVersion::V1,
    };
    CoinbasePlan::Mined { version, height, outputs, miner_data }
}

/// What the header of a block commits to.
#[derive(Clone, Copy, Debug, PartialEq, Eq)]
pub enum CommitmentPlan {
    /// These bytes.
    Bytes([u8; 32]),
    /// The hash of the root of the chain history, and of the authorizing data of the block's
    /// transactions.
    ChainHistoryBlockTxAuth {
        /// The root of the chain history.
        history_root: [u8; 32],
    },
}

/// What stands for the root of the chain history at the height where that starts: zeros.
pub open spec fn activation_reserved() -> Seq<u8> {
    Seq::new(32, |i: int| 0u8)
}

/// The contents of a commitment: whether it is to the authorizing data as well, and the bytes.
pub open spec fn commitment_view(commitment: CommitmentPlan) -> (bool, Seq<u8>) {
    match commitment {
        CommitmentPlan::Bytes(bytes) => (false, bytes@),
        CommitmentPlan::ChainHistoryBlockTxAuth { history_root } => (true, history_root@),
    }
}

/// The commitment of the block at `height`, or `None` where it would be to a chain history
/// that has no root.
pub open spec fn commitment_at(
    heights: ConfiguredActivationHeights,
    height: Height,
    history_root: Option<[u8; 32]>,
    sapling_root: Seq<u8>,
) -> Option<(bool, Seq<u8>)> {
    let history_starts = heights.height_of(NetworkUpgrade::Heartwood) == Some(height);
    match heights.upgrade_at(height) {
        NetworkUpgrade::Genesis | NetworkUpgrade::BeforeOverwinter
        | NetworkUpgrade::Overwinter => Some((false, Seq::new(32, |i: int| 0u8))),
        NetworkUpgrade::Sapling | NetworkUpgrade::Blossom => Some((false, sapling_root)),
        NetworkUpgrade::Heartwood | NetworkUpgrade::Canopy => if history_starts {
            Some((false, activation_reserved()))
        } else {
            match history_root {
                Some(root) => Some((false, root@)),
                None => None,
            }
        },
        NetworkUpgrade::Nu5 | NetworkUpgrade::Nu6 | NetworkUpgrade::Nu6_1
        | NetworkUpgrade::Nu7 => match history_root {
            Some(root) => Some((true, root@)),
            None => if history_starts {
                Some((true, activation_reserved()))
            } else {
                None
            },
        },
    }
}

/// What the header of the block at `height` commits to.
pub fn commitment_plan_for_height(
    heights: &ConfiguredActivationHeights,
    height: Height,
    history_root: Option<[u8; 32]>,
    sapling_root: [u8; 32],
) -> (commitment: Result<CommitmentPlan, LocalGenesisError>)
    ensures
        match commitment_at(*heights, height, history_root, sapling_root@) {
            Some(contents) => commitment matches Ok(plan) && commitment_view(plan) == contents,
            None => commitment == Err::<CommitmentPlan, _>(
                LocalGenesisError::MissingHistoryTree(height),
            ),
        },
{
    let upgrade = NetworkUpgrade::current(heights, height);
    let heartwood_activation = NetworkUpgrade::Heartwood.activation_height(heights);
    let history_starts = match heartwood_activation {
        Some(first) => first == height,
        None => false,
    };
    let zeros: [u8; 32] = [0;32];
    match upgrade {
        NetworkUpgrade::Genesis | NetworkUpgrade::BeforeOverwinter
        | NetworkUpgrade::Overwinter => Ok(CommitmentPlan::Bytes(zeros)),
        NetworkUpgrade::Sapling | NetworkUpgrade::Blossom => Ok(
            CommitmentPlan::Bytes(sapling_root),
        ),
        NetworkUpgrade::Heartwood | NetworkUpgrade::Canopy => {
            if history_starts {
                Ok(CommitmentPlan::Bytes(zeros))
            } else {
                match history_root {
                    Some(root) => Ok(CommitmentPlan::Bytes(root)),
                    None => Err(LocalGenesisError::MissingHistoryTree(height)),
                }
            }
        },
        NetworkUpgrade::Nu5 | NetworkUpgrade::Nu6 | NetworkUpgrade::Nu6_1
        | NetworkUpgrade::Nu7 => {
            match history_root {
                Some(root) => Ok(CommitmentPlan::ChainHistoryBlockTxAuth { history_root: root }),
                None => {
                    if history_starts {
                        Ok(CommitmentPlan::ChainHistoryBlockTxAuth { history_root: zeros })
                    } else {
                        Err(LocalGenesisError::MissingHistoryTree(height))
                    }
                },
            }
        },
    }
}

/// Whether `bytes` are the commitment of the block at `height` with these transactions, on top
/// of this chain history.
pub open spec fn is_commitment<P: ChainParts>(
    parts: P,
    heights: ConfiguredActivationHeights,
    height: Height,
    history: P::HistoryTree,
    transactions: Vec<P::Transaction>,
    sapling_root: Seq<u8>,
    bytes: [u8; 32],
) -> bool {
    exists|root: Option<[u8; 32]>|
        {
            &&& #[trigger] call_ensures(P::history_root, (&parts, &history), root)
            &&& match commitment_at(heights, height, root, sapling_root) {
                Some((false, contents)) => bytes@ == contents,
                Some((true, contents)) => is_history_commitment(
                    parts,
                    contents,
                    transactions,
                    bytes,
                ),
                None => false,
            }
        }
}

/// Whether `bytes` are the commitment to a history root and to the authorizing data of these
/// transactions.
pub open spec fn is_history_commitment<P: ChainParts>(
    parts: P,
    history_root: Seq<u8>,
    transactions: Vec<P::Transaction>,
    bytes: [u8; 32],
) -> bool {
    exists|root: [u8; 32], auth: [u8; 32]|
        {
            &&& root@ == history_root
            &&& #[trigger] call_ensures(P::auth_data_root, (&parts, &transactions), auth)
            &&& #[trigger] call_ensures(P::block_commitment, (&parts, &root, &auth), bytes)
        }
}

/// Whether the block at `height` would commit to this chain history, which has no root.
pub open spec fn lacks_history<P: ChainParts>(
    parts: P,
    heights: ConfiguredActivationHeights,
    height: Height,
    history: P::HistoryTree,
    sapling_root: Seq<u8>,
) -> bool {
    exists|root: Option<[u8; 32]>|
        {
            &&& #[trigger] call_ensures(P::history_root, (&parts, &history), root)
            &&& commitment_at(heights, height, root, sapling_root) is None
        }
}

/// The commitment in the header of the block at `height` with these transactions, on top of
/// this chain history.
pub fn block_commitment_bytes_for_height<P: ChainParts>(
    heights: &ConfiguredActivationHeights,
    height: Height,
    history: &P::HistoryTree,
    transactions: &Vec<P::Transaction>,
    sapling_root: [u8; 32],
    parts: &P,
) -> (commitment: Result<[u8; 32], LocalGenesisError>)
    ensures
        match commitment {
            Ok(bytes) => is_commitment(
                *parts,
                *heights,
                height,
                *history,
                *transactions,
                sapling_root@,
                bytes,
            ),
            Err(error) => {
                &&& lacks_history(*parts, *heights, height, *history, sapling_root@)
                &&& error == LocalGenesisError::MissingHistoryTree(height)
            },
        },
{
    let root = parts.history_root(history);
    match commitment_plan_for_height(heights, height, root, sapling_root) {
        Ok(CommitmentPlan::Bytes(bytes)) => Ok(bytes),
        Ok(CommitmentPlan::ChainHistoryBlockTxAuth { history_root }) => {
            let auth = parts.auth_data_root(transactions);
            let bytes = parts.block_commitment(&history_root, &auth);
            assert(is_history_commitment(*parts, history_root@, *transactions, bytes));
            Ok(bytes)
        },
        Err(error) => Err(error),
    }
}

}
