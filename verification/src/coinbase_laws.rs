//! What coinbase transactions pay, and what headers commit to.

use crate::appended_block_laws::{amounts_sum, is_filled, lemma_amounts_sum};
use crate::chain_parts::ChainParts;
use crate::generated_chain::GeneratedLocalTestnet;
use crate::keys::{Address, Script};
use crate::local_genesis::{
    coinbase_transaction_for_height, commitment_plan_for_height, distribute_subsidy, Amount, Block,
    CoinbasePlan, CoinbaseVersion, CommitmentPlan, LocalGenesisError,
};
use crate::local_genesis_laws::{law_subsidy_is_paid_in_full, law_subsidy_is_split_evenly};
use crate::network::{ConfiguredActivationHeights, Height, NetworkUpgrade};
use crate::text::{decimal_string, hex_lower};
use crate::text_laws::{is_hexadecimal, lemma_hex_lower};
use crate::timestamp::Timestamp;
use vstd::prelude::*;

verus! {

/// A subsidy is paid out in full and no more is, one output goes to each script, in order, no
/// two outputs differ by more than one unit, and none pays more than one before it.
pub proof fn law_subsidy_is_distributed(
    subsidy: i64,
    scripts: &Vec<Script>,
    outputs: Vec<(i64, Script)>,
    i: int,
    j: int,
)
    requires
        0 <= subsidy,
        0 < scripts@.len() <= i64::MAX,
        call_ensures(distribute_subsidy, (subsidy, scripts), outputs),
        0 <= i <= j < scripts@.len(),
    ensures
        outputs@.len() == scripts@.len(),
        outputs@[i].1.0@ == scripts@[i].0@,
        amounts_sum(outputs@) == subsidy,
        0 <= outputs@[j].0 <= outputs@[i].0 <= outputs@[j].0 + 1,
{
    law_subsidy_is_paid_in_full(outputs@, subsidy as int);
    law_subsidy_is_split_evenly(subsidy as int, scripts@.len() as int, i, j);
    lemma_amounts_sum(outputs@);
}

/// Genesis has the coinbase transaction of Regtest. Any other block has a new one, which states
/// the height, pays the outputs, names this generator, and has version 1 before Sapling, 4 before
/// NU5 and 5 from then on.
pub proof fn law_coinbase_follows_the_upgrade(
    heights: &ConfiguredActivationHeights,
    height: Height,
    outputs: Vec<(i64, Script)>,
    coinbase: CoinbasePlan,
    upgrade: NetworkUpgrade,
)
    requires
        call_ensures(coinbase_transaction_for_height, (heights, height, outputs), coinbase),
        call_ensures(NetworkUpgrade::current, (heights, height), upgrade),
    ensures
        coinbase is RegtestGenesis <==> height.0 == 0,
        coinbase matches CoinbasePlan::Mined {
            version,
            height: stated,
            outputs: paid,
            miner_data,
        } ==> {
            &&& stated == height
            &&& paid@ == outputs@
            &&& miner_data@ == vstd::utf8::encode_utf8("zebra-local-genesis"@)
            &&& version == match upgrade {
                NetworkUpgrade::Genesis | NetworkUpgrade::BeforeOverwinter
                | NetworkUpgrade::Overwinter => CoinbaseVersion::V1,
                NetworkUpgrade::Sapling | NetworkUpgrade::Blossom | NetworkUpgrade::Heartwood
                | NetworkUpgrade::Canopy => CoinbaseVersion::V4,
                _ => CoinbaseVersion::V5,
            }
        },
{
}

/// A header commits to zeros before Sapling, to the Sapling root before Heartwood, and to the
/// root of the chain history from then on, from NU5 on together with the authorizing data. The
/// block where Heartwood activates has zeros in place of the root: always before NU5, and from
/// then on where there is none. Any later block needs the root.
pub proof fn law_planned_commitment_follows_the_upgrade(
    heights: &ConfiguredActivationHeights,
    height: Height,
    history_root: Option<[u8; 32]>,
    sapling_root: [u8; 32],
    commitment: Result<CommitmentPlan, LocalGenesisError>,
    upgrade: NetworkUpgrade,
    heartwood: Option<Height>,
)
    requires
        call_ensures(
            commitment_plan_for_height,
            (heights, height, history_root, sapling_root),
            commitment,
        ),
        call_ensures(NetworkUpgrade::current, (heights, height), upgrade),
        call_ensures(
            NetworkUpgrade::activation_height,
            (NetworkUpgrade::Heartwood, heights),
            heartwood,
        ),
    ensures
        match upgrade {
            NetworkUpgrade::Genesis | NetworkUpgrade::BeforeOverwinter
            | NetworkUpgrade::Overwinter => (commitment matches Ok(CommitmentPlan::Bytes(bytes))
                && is_filled(bytes, 0)),
            NetworkUpgrade::Sapling | NetworkUpgrade::Blossom => (commitment matches Ok(
                CommitmentPlan::Bytes(bytes),
            ) && bytes@ == sapling_root@),
            NetworkUpgrade::Heartwood | NetworkUpgrade::Canopy => if heartwood == Some(height) {
                commitment matches Ok(CommitmentPlan::Bytes(bytes)) && is_filled(bytes, 0)
            } else {
                match history_root {
                    Some(root) => (commitment matches Ok(CommitmentPlan::Bytes(bytes)) && bytes@
                        == root@),
                    None => commitment == Err::<CommitmentPlan, _>(
                        LocalGenesisError::MissingHistoryTree(height),
                    ),
                }
            },
            _ => match history_root {
                Some(root) => (commitment matches Ok(
                    CommitmentPlan::ChainHistoryBlockTxAuth { history_root: stated },
                ) && stated@ == root@),
                None => if heartwood == Some(height) {
                    commitment matches Ok(
                        CommitmentPlan::ChainHistoryBlockTxAuth { history_root: stated },
                    ) && is_filled(stated, 0)
                } else {
                    commitment == Err::<CommitmentPlan, _>(
                        LocalGenesisError::MissingHistoryTree(height),
                    )
                },
            },
        },
{
}

/// An amount is kept as it was given, and there is none below zero.
pub proof fn law_amounts_are_not_negative(zatoshis: i64, amount: Option<Amount>, back: i64)
    requires
        call_ensures(Amount::new, (zatoshis,), amount),
        amount matches Some(a) ==> call_ensures(Amount::zatoshis, (&a,), back),
    ensures
        amount is Some <==> zatoshis >= 0,
        amount is Some ==> back == zatoshis,
{
}

/// The funded scripts are those of the addresses of the funded keys, in order.
pub proof fn law_funded_scripts_are_those_of_the_keys<P: ChainParts>(
    chain: &GeneratedLocalTestnet<P>,
    scripts: Vec<Script>,
    i: int,
    address: &Address,
    script: Script,
)
    requires
        call_ensures(GeneratedLocalTestnet::<P>::funded_scripts, (chain,), scripts),
        0 <= i < chain.funded_keys@.len(),
        *address == chain.funded_keys@[i].address,
        call_ensures(Address::script, (address,), script),
    ensures
        scripts@.len() == chain.funded_keys@.len(),
        scripts@[i].0@ == script.0@,
{
    assert(scripts@[i].0@ == script.0@);
}

/// The genesis block is the first one, its hexadecimal form shows the bytes that it was
/// serialized to, and the root of the Orchard note commitments is that of the chain's tree.
pub proof fn law_genesis_is_the_first_block<
    P: ChainParts,
    E,
    F: FnOnce(&Block<P::Transaction>) -> Result<Vec<u8>, E>,
>(
    chain: &GeneratedLocalTestnet<P>,
    parts: &P,
    block: &Block<P::Transaction>,
    serialize: F,
    hex: Result<String, E>,
    root: [u8; 32],
)
    requires
        call_ensures(GeneratedLocalTestnet::<P>::genesis_block, (chain,), block),
        call_ensures(GeneratedLocalTestnet::<P>::genesis_hex::<E, F>, (chain, serialize), hex),
        call_ensures(GeneratedLocalTestnet::<P>::orchard_tree_root, (chain, parts), root),
    ensures
        *block == chain.blocks@[0],
        hex matches Ok(text) ==> exists|bytes: Vec<u8>| #[trigger]
            call_ensures(serialize, (&chain.blocks@[0],), Ok::<Vec<u8>, E>(bytes))
                && is_hexadecimal(text@, bytes@),
        hex matches Err(error) ==> call_ensures(
            serialize,
            (&chain.blocks@[0],),
            Err::<Vec<u8>, E>(error),
        ),
        call_ensures(P::orchard_root, (parts, &chain.orchard_tree), root),
{
    if let Ok(text) = hex {
        let bytes = choose|bytes: Vec<u8>|
            call_ensures(serialize, (&chain.blocks@[0],), Ok::<Vec<u8>, E>(bytes)) && text@
                == #[trigger] hex_lower(bytes@);
        lemma_hex_lower(bytes@);
        assert(call_ensures(serialize, (&chain.blocks@[0],), Ok::<Vec<u8>, E>(bytes)));
    }
}

/// Each error says what went wrong: what is the matter with the names, the options or the parts,
/// and which name, upgrade, height or reason it is about.
pub proof fn law_errors_say_what_went_wrong(
    error: &LocalGenesisError,
    message: String,
    upgrade: NetworkUpgrade,
    upgrade_name: &str,
    height: Height,
    height_text: String,
)
    requires
        call_ensures(LocalGenesisError::message, (error,), message),
        call_ensures(NetworkUpgrade::name, (upgrade,), upgrade_name),
        call_ensures(decimal_string, (height.0 as u64,), height_text),
        error matches LocalGenesisError::UnsupportedLatestUpgrade(given) ==> given == upgrade,
        error matches LocalGenesisError::MissingHistoryTree(given) ==> given == height,
        error matches LocalGenesisError::TimeOutOfRange(given) ==> given == height,
    ensures
        message@ == match error {
            LocalGenesisError::EmptyNames => "at least one non-empty funded key name is required"@,
            LocalGenesisError::DuplicateName(name) => "found duplicate funded key name: "@ + name@,
            LocalGenesisError::EmptyName => "funded key names must not be empty"@,
            LocalGenesisError::InvalidLatestUpgradeHeight =>
                "latest upgrade height must be greater than 0"@,
            LocalGenesisError::UnsupportedLatestUpgrade(_) =>
                "unsupported latest network upgrade for this tool: "@ + upgrade_name@,
            LocalGenesisError::UnsupportedPowMode =>
                "this generator currently supports disable_pow=true only"@,
            LocalGenesisError::MissingHistoryTree(_) =>
                "missing history tree root while building commitment at height Height("@
                + height_text@ + ")"@,
            LocalGenesisError::Parameters(reason) =>
                "failed to build configured testnet parameters: "@ + reason@,
            LocalGenesisError::Subsidy(reason) => reason@,
            LocalGenesisError::HistoryTree(reason) => reason@,
            LocalGenesisError::TimeOutOfRange(_) => "block time out of range at height Height("@
                + height_text@ + ")"@,
            LocalGenesisError::ExhaustedDerivation(name) =>
                "nothing can be derived from the name: "@ + name@,
        },
{
}

/// Whether an instant lies on the calendar: between the years -262143 and 262142, with less than
/// a billion nanoseconds, or less than two in the last second of a minute.
pub open spec fn is_on_the_calendar(secs: int, nanos: int) -> bool {
    &&& -8_334_601_228_800 <= secs <= 8_210_266_876_799
    &&& 0 <= nanos < 2_000_000_000
    &&& nanos >= 1_000_000_000 ==> secs % 60 == 59
}

/// An instant reads back as it was given, and there is one exactly on the calendar.
pub proof fn law_instants_read_back(
    secs: i64,
    nanos: u32,
    made: Option<Timestamp>,
    back_secs: i64,
    back_nanos: u32,
)
    requires
        call_ensures(Timestamp::new, (secs, nanos), made),
        made matches Some(t) ==> call_ensures(Timestamp::secs, (&t,), back_secs)
            && call_ensures(Timestamp::nanos, (&t,), back_nanos),
    ensures
        made is Some <==> is_on_the_calendar(secs as int, nanos as int),
        made is Some ==> back_secs == secs && back_nanos == nanos,
{
}

/// Moving an ordinary instant adds the seconds and keeps the nanoseconds, as long as it stays on
/// the calendar.
pub proof fn law_instants_move_by_seconds(
    from: &Timestamp,
    delta: i64,
    moved: Option<Timestamp>,
    secs: i64,
    nanos: u32,
    moved_secs: i64,
    moved_nanos: u32,
)
    requires
        call_ensures(Timestamp::moved_by, (from, delta), moved),
        call_ensures(Timestamp::secs, (from,), secs),
        call_ensures(Timestamp::nanos, (from,), nanos),
        moved matches Some(t) ==> call_ensures(Timestamp::secs, (&t,), moved_secs)
            && call_ensures(Timestamp::nanos, (&t,), moved_nanos),
        nanos < 1_000_000_000,
    ensures
        moved is Some <==> -8_334_601_228_800 <= secs + delta <= 8_210_266_876_799,
        moved is Some ==> moved_secs == secs + delta && moved_nanos == nanos,
{
}

}
