//! Tests for generated local Testnet chains.

use zebra_devkit::chain_parts::ChainParts;
use zebra_devkit::generated_chain::{
    generate_local_testnet, generate_local_testnet_with_funded_keys, GeneratedLocalTestnet,
};
use zebra_devkit::keys::{
    derive_network_magic, funded_key_from_name, hash160, magic_from_digest, secret_key_from_name,
    Magic, Script,
};
use zebra_devkit::local_genesis::{
    activation_heights_for_latest_upgrade, block_commitment_bytes_for_height,
    coinbase_transaction_for_height, commitment_plan_for_height, distribute_subsidy,
    ordered_names, Amount, Block, BlockHash, CoinbasePlan, CoinbaseVersion, CommitmentPlan, Header,
    LocalGenesisError, LocalTestnetGenesisOptions, Network,
};
use zebra_devkit::network::{ConfiguredActivationHeights, Height, NetworkKind, NetworkUpgrade};
use zebra_devkit::timestamp::{Timestamp, FIRST_SECOND, LAST_SECOND};

/// A transaction, as far as the tests build it.
#[derive(Clone, Debug, PartialEq)]
struct TestTx {
    version: Option<CoinbaseVersion>,
    amounts: Vec<i64>,
    notes: Vec<[u8; 32]>,
}

/// What the tests compute of a chain, and what they refuse.
#[derive(Clone, Debug)]
struct TestParts {
    subsidy: Option<i64>,
    spacing_secs: i64,
    /// The numbers of checkpoints with which a network is refused.
    refused_checkpoints: Vec<usize>,
    /// The number of note commitments that fit into the Orchard tree.
    orchard_room: usize,
    /// The number of blocks that fit into the chain history.
    history_room: usize,
    /// The number of blocks from which the chain history has a root.
    rooted_from: usize,
}

fn parts() -> TestParts {
    TestParts {
        subsidy: Some(1_001),
        spacing_secs: 75,
        refused_checkpoints: Vec::new(),
        orchard_room: 3,
        history_room: usize::MAX,
        rooted_from: 2,
    }
}

/// Mixes bytes into 32 bytes.
fn mix(tag: u8, bytes: &[u8]) -> [u8; 32] {
    let mut mixed = [tag; 32];
    for (i, byte) in bytes.iter().enumerate() {
        let place = i % 32;
        mixed[place] = mixed[place].wrapping_mul(31).wrapping_add(*byte);
    }
    mixed
}

fn tx_bytes(transactions: &[TestTx]) -> Vec<u8> {
    let amounts = transactions.iter().flat_map(|tx| tx.amounts.iter());
    amounts.flat_map(|amount| amount.to_le_bytes()).collect()
}

impl ChainParts for TestParts {
    type Transaction = TestTx;
    type HistoryTree = Vec<[u8; 32]>;
    type OrchardTree = Vec<[u8; 32]>;

    fn network_fault(&self, network: &Network) -> Option<String> {
        self.refused_checkpoints
            .contains(&network.checkpoints.len())
            .then_some("refused".to_string())
    }
    fn block_subsidy(&self, _: &Network, _: Height) -> Result<Amount, String> {
        self.subsidy.and_then(Amount::new).ok_or("no subsidy".to_string())
    }
    fn target_spacing_secs(&self, _: &Network, _: Height) -> i64 {
        self.spacing_secs
    }
    fn compact_difficulty(&self, target: &[u8; 32]) -> u32 {
        u32::from(target[0]) + 0x2000_0000
    }
    fn coinbase_transaction(&self, _: &Network, plan: &CoinbasePlan) -> TestTx {
        match plan {
            CoinbasePlan::RegtestGenesis => {
                TestTx { version: None, amounts: Vec::new(), notes: Vec::new() }
            }
            CoinbasePlan::Mined { version, outputs, .. } => TestTx {
                version: Some(*version),
                amounts: outputs.iter().map(|output| output.0).collect(),
                notes: Vec::new(),
            },
        }
    }
    fn orchard_note_commitments(&self, transaction: &TestTx) -> Vec<[u8; 32]> {
        transaction.notes.clone()
    }
    fn merkle_root(&self, transactions: &Vec<TestTx>) -> [u8; 32] {
        mix(1, &tx_bytes(transactions))
    }
    fn auth_data_root(&self, transactions: &Vec<TestTx>) -> [u8; 32] {
        mix(2, &tx_bytes(transactions))
    }
    fn block_commitment(&self, history_root: &[u8; 32], auth_data_root: &[u8; 32]) -> [u8; 32] {
        mix(3, &[*history_root, *auth_data_root].concat())
    }
    fn block_hash(&self, header: &Header) -> BlockHash {
        let fields = [
            &header.previous_block_hash.0[..],
            &header.merkle_root[..],
            &header.commitment_bytes[..],
            &header.time.secs().to_le_bytes()[..],
        ];
        BlockHash(mix(4, &fields.concat()))
    }
    fn sapling_root(&self) -> [u8; 32] {
        [3; 32]
    }
    fn empty_orchard_tree(&self) -> Vec<[u8; 32]> {
        Vec::new()
    }
    fn append_note(&self, tree: &Vec<[u8; 32]>, note: &[u8; 32]) -> Result<Vec<[u8; 32]>, String> {
        if tree.len() >= self.orchard_room {
            return Err("tree is full".to_string());
        }
        let mut longer = tree.clone();
        longer.push(*note);
        Ok(longer)
    }
    fn orchard_root(&self, tree: &Vec<[u8; 32]>) -> [u8; 32] {
        mix(5, &tree.concat())
    }
    fn empty_history(&self) -> Vec<[u8; 32]> {
        Vec::new()
    }
    fn history_root(&self, history: &Vec<[u8; 32]>) -> Option<[u8; 32]> {
        (history.len() >= self.rooted_from).then_some(mix(6, &history.concat()))
    }
    fn push_history(
        &self,
        _: &Network,
        history: &Vec<[u8; 32]>,
        block: &Block<TestTx>,
        sapling_root: &[u8; 32],
        orchard_root: &[u8; 32],
    ) -> Result<Vec<[u8; 32]>, String> {
        assert_eq!(*sapling_root, [3; 32]);
        if history.len() >= self.history_room {
            return Err("history is full".to_string());
        }
        let mut longer = history.clone();
        longer.push(mix(7, &[self.block_hash(&block.header).0, *orchard_root].concat()));
        Ok(longer)
    }
}

fn names(names: &[&str]) -> Vec<String> {
    names.iter().map(|name| name.to_string()).collect()
}

/// Generates a chain with this many premined blocks.
fn premined(count: u32, parts: &TestParts) -> Result<GeneratedLocalTestnet<TestParts>, LocalGenesisError> {
    let options = LocalTestnetGenesisOptions {
        premined_block_count: count,
        ..LocalTestnetGenesisOptions::default()
    };
    generate_local_testnet_with_funded_keys(&names(&["a", "b"]), options, parts)
}

#[test]
fn generates_custom_local_testnet_chain() {
    let options = LocalTestnetGenesisOptions {
        premined_block_count: 3,
        ..LocalTestnetGenesisOptions::default()
    };

    let generated =
        generate_local_testnet_with_funded_keys(&names(&["miner-1", "miner-2"]), options, &parts())
            .expect("the chain can be generated");

    assert_eq!(generated.funded_keys.len(), 2);
    assert_eq!(generated.blocks.len(), 4);
    assert_eq!(generated.checkpoints.len(), 4);

    let genesis_hash = parts().block_hash(&generated.genesis_block().header);
    assert_eq!(generated.network.genesis_hash, genesis_hash);
    assert_eq!(generated.checkpoints[0], (Height(0), genesis_hash));

    // The first block after genesis commits to the start of the history and to its transactions.
    let height_1_block = &generated.blocks[1];
    let auth_data_root = parts().auth_data_root(&height_1_block.transactions);
    assert!(matches!(
        commitment_plan_for_height(
            &generated.network.activation_heights,
            Height(1),
            None,
            generated.sapling_root,
        ),
        Ok(CommitmentPlan::ChainHistoryBlockTxAuth { history_root }) if
            height_1_block.header.commitment_bytes
                == parts().block_commitment(&history_root, &auth_data_root)
    ));
}

#[test]
fn generation_is_deterministic() {
    let (a, b) = (premined(3, &parts()).unwrap(), premined(3, &parts()).unwrap());
    assert_eq!(a.funded_keys, b.funded_keys);
    assert_eq!(a.blocks, b.blocks);
    assert_eq!(a.checkpoints, b.checkpoints);
    assert_eq!(a.history_tree, b.history_tree);
    assert_eq!(a.network, b.network);
}

/// An appended block is the one that would have been premined next.
#[test]
fn appending_extends_what_was_premined() {
    let mut appended = premined(3, &parts()).unwrap();
    assert_eq!(appended.append_block(&parts(), Vec::new()), Ok(Height(4)));
    let longer = premined(4, &parts()).unwrap();
    assert_eq!(appended.blocks, longer.blocks);
    assert_eq!(appended.checkpoints, longer.checkpoints);
    assert_eq!(appended.history_tree, longer.history_tree);
    assert_ne!(appended.network, longer.network);

    // A copy of the chain grows by itself.
    let mut copy = appended.clone();
    assert_eq!(copy.append_block(&parts(), Vec::new()), Ok(Height(5)));
    assert_eq!((copy.blocks.len(), appended.blocks.len()), (6, 5));

    // Only rebuilding brings the network up to the longer chain, and nothing else changes.
    assert_eq!(appended.rebuild_network(&parts()), Ok(()));
    assert_eq!(appended.network, longer.network);
    assert_eq!(appended.network.checkpoints.len(), 5);
    assert_eq!(appended.blocks, longer.blocks);
    assert_eq!(appended.checkpoints, longer.checkpoints);
}

#[test]
fn rejects_duplicate_names() {
    let err = generate_local_testnet(&names(&["miner-1", "miner-1"]), &parts())
        .err()
        .expect("duplicate names should fail");
    assert!(matches!(err, LocalGenesisError::DuplicateName(_)));
}

#[test]
fn default_options() {
    let options = LocalTestnetGenesisOptions::default();
    assert_eq!(options.network_name, "LocalGenesisNet");
    assert_eq!(options.network_magic, None);
    assert_eq!(options.latest_network_upgrade, NetworkUpgrade::Nu6_1);
    assert_eq!(options.latest_upgrade_height, Height(1));
    assert_eq!(options.premined_block_count, 100);
    assert_eq!((options.start_time.secs(), options.start_time.nanos()), (1_700_000_000, 0));
    assert!(options.disable_pow);
}

#[test]
fn blocks_are_linked_and_spaced() {
    let mut chain = premined(2, &parts()).unwrap();
    let previous: Vec<BlockHash> =
        chain.blocks.iter().map(|block| block.header.previous_block_hash).collect();
    assert_eq!(previous, vec![BlockHash([0; 32]), chain.checkpoints[0].1, chain.checkpoints[1].1]);
    let times: Vec<i64> = chain.blocks.iter().map(|block| block.header.time.secs()).collect();
    assert_eq!(times, vec![1_700_000_000, 1_700_000_075, 1_700_000_150]);
    for (i, block) in chain.blocks.iter().enumerate() {
        let hash = parts().block_hash(&block.header);
        assert_eq!(chain.checkpoints[i], (Height(i as u32), hash));
        assert_eq!(block.transactions.len(), 1);
        assert_eq!(block.header.merkle_root, parts().merkle_root(&block.transactions));
        assert_eq!(block.header.difficulty_threshold, 0x2000_000f);
        assert_eq!(block.header.nonce, [0; 32]);
    }
    assert_eq!(chain.blocks[0].transactions[0].version, None);
    assert_eq!(chain.blocks[1].transactions[0].version, Some(CoinbaseVersion::V5));
    assert_eq!(chain.blocks[1].transactions[0].amounts, vec![501, 500]);
    assert_eq!(chain.blocks[0].header.commitment_bytes, [0; 32]);

    // The network of an extended chain is stale until it is rebuilt.
    assert_eq!(chain.append_block(&parts(), Vec::new()), Ok(Height(3)));
    assert_eq!(chain.network.checkpoints.len(), 3);
    assert_eq!(chain.rebuild_network(&parts()), Ok(()));
    assert_eq!(chain.network.checkpoints, chain.checkpoints);
    assert_eq!(chain.network.genesis_hash, chain.checkpoints[0].1);
}

#[test]
fn generated_network_parameters() {
    let chain = generate_local_testnet(&names(&["miner"]), &parts()).unwrap();
    assert_eq!(chain.blocks.len(), 101);
    let network = &chain.network;
    assert_eq!(network.network_name, "LocalGenesisNet");
    assert_eq!(network.network_magic, Magic([0xaa, 0x3b, 0xe2, 0x0d]));
    assert_eq!(network.slow_start_interval, Height(0));
    assert_eq!(network.funding_stream_count, 0);
    assert_eq!(network.lockbox_disbursement_count, 0);
    assert_eq!(network.target_difficulty_limit, [0x0f; 32]);
    assert_eq!(network.halving_interval, 144);
    assert!(network.disable_pow);
    assert!(network.unshielded_coinbase_spends);
    assert_eq!(
        network.activation_heights,
        ConfiguredActivationHeights {
            before_overwinter: None,
            overwinter: Some(1),
            sapling: Some(1),
            blossom: Some(1),
            heartwood: Some(1),
            canopy: Some(1),
            nu5: Some(1),
            nu6: Some(1),
            nu6_1: Some(1),
            nu7: None,
        }
    );

    let options = LocalTestnetGenesisOptions {
        network_magic: Some(Magic([1, 2, 3, 4])),
        ..LocalTestnetGenesisOptions::default()
    };
    let chain =
        generate_local_testnet_with_funded_keys(&names(&["miner"]), options, &parts()).unwrap();
    assert_eq!(chain.network.network_magic, Magic([1, 2, 3, 4]));
}

#[test]
fn each_generation_error() {
    let start = |list: &[&str], options: LocalTestnetGenesisOptions| {
        generate_local_testnet_with_funded_keys(&names(list), options, &parts())
            .err()
            .expect("the chain cannot be generated")
    };
    let default = LocalTestnetGenesisOptions::default;

    let options = LocalTestnetGenesisOptions {
        disable_pow: false,
        latest_upgrade_height: Height(0),
        ..default()
    };
    assert_eq!(start(&[], options), LocalGenesisError::UnsupportedPowMode);

    let options = LocalTestnetGenesisOptions { latest_upgrade_height: Height(0), ..default() };
    assert_eq!(start(&[], options), LocalGenesisError::InvalidLatestUpgradeHeight);

    assert_eq!(start(&[], default()), LocalGenesisError::EmptyNames);
    assert_eq!(start(&["a", " \t"], default()), LocalGenesisError::EmptyName);
    assert_eq!(
        start(&["a", " a ", ""], default()),
        LocalGenesisError::DuplicateName("a".to_string())
    );

    let options = LocalTestnetGenesisOptions {
        latest_network_upgrade: NetworkUpgrade::Canopy,
        ..default()
    };
    assert_eq!(
        start(&["a"], options),
        LocalGenesisError::UnsupportedLatestUpgrade(NetworkUpgrade::Canopy)
    );
}

#[test]
fn error_messages() {
    let cases = vec![
        (LocalGenesisError::EmptyNames, "at least one non-empty funded key name is required"),
        (
            LocalGenesisError::DuplicateName("bob".to_string()),
            "found duplicate funded key name: bob",
        ),
        (LocalGenesisError::EmptyName, "funded key names must not be empty"),
        (
            LocalGenesisError::InvalidLatestUpgradeHeight,
            "latest upgrade height must be greater than 0",
        ),
        (
            LocalGenesisError::UnsupportedLatestUpgrade(NetworkUpgrade::Nu7),
            "unsupported latest network upgrade for this tool: Nu7",
        ),
        (
            LocalGenesisError::UnsupportedPowMode,
            "this generator currently supports disable_pow=true only",
        ),
        (
            LocalGenesisError::MissingHistoryTree(Height(12)),
            "missing history tree root while building commitment at height Height(12)",
        ),
        (
            LocalGenesisError::Parameters("bad name".to_string()),
            "failed to build configured testnet parameters: bad name",
        ),
        (LocalGenesisError::Subsidy("no subsidy".to_string()), "no subsidy"),
        (LocalGenesisError::HistoryTree("no tree".to_string()), "no tree"),
        (
            LocalGenesisError::TimeOutOfRange(Height(7)),
            "block time out of range at height Height(7)",
        ),
        (
            LocalGenesisError::ExhaustedDerivation("bob".to_string()),
            "nothing can be derived from the name: bob",
        ),
    ];
    for (error, text) in cases {
        assert_eq!(error.message(), text);
    }
}

#[test]
fn names_are_trimmed_and_kept_in_order() {
    assert_eq!(
        ordered_names(&names(&[" zoe ", "adam\n", "Zoe"])),
        Ok(names(&["zoe", "adam", "Zoe"]))
    );
}

#[test]
fn keys_are_derived_from_names() {
    let key = funded_key_from_name("miner-1", NetworkKind::Testnet).expect("the name gives a key");
    assert_eq!(key.name, "miner-1");
    assert_eq!(
        key.secret_key_hex,
        "fa6b0aef99a2166cfe6c2f1e112cf00b939f0670cd4f995cca36b15e3927cab8"
    );
    assert_eq!(
        key.public_key_hex,
        "0301411909e8c7412cc7e4cd0b122cbf400f0349f1101739d84942f909fb10d608"
    );
    assert_eq!(key.address.network_kind, NetworkKind::Testnet);
    let hash = [
        0x28, 0x22, 0x05, 0xe3, 0xcc, 0x0c, 0x19, 0x08, 0x1b, 0x73, 0x38, 0x20, 0x32, 0x99, 0x2b,
        0x42, 0x4b, 0x96, 0xb8, 0x41,
    ];
    assert_eq!(key.address.pub_key_hash, hash);

    let mut script = vec![0x76, 0xa9, 0x14];
    script.extend(hash);
    script.extend([0x88, 0xac]);
    assert_eq!(key.address.script(), Script(script.clone()));

    let again = funded_key_from_name("miner-1", NetworkKind::Testnet);
    assert_eq!(again, Some(key));

    let chain = generate_local_testnet(&names(&[" miner-2", "miner-1 "]), &parts()).unwrap();
    assert_eq!(
        chain.funded_keys[0].secret_key_hex,
        "5068b78c237a0273b86ced523f567812e6dee126907f38727c5e03946290ae0c"
    );
    assert_eq!(chain.funded_scripts()[1], Script(script));
    assert_eq!(
        secret_key_from_name("miner-1").map(|secret| (secret[0], secret[31])),
        Some((0xfa, 0xb8))
    );
}

#[test]
fn public_magics_are_skipped() {
    let mut digest = [5; 32];
    assert_eq!(magic_from_digest(&digest), Some(Magic([5, 5, 5, 5])));
    for public in [
        [0x24, 0xe9, 0x27, 0x64],
        [0xfa, 0x1a, 0xf9, 0xbf],
        [0xaa, 0xe8, 0x3f, 0x5f],
    ] {
        digest[..4].copy_from_slice(&public);
        assert_eq!(magic_from_digest(&digest), None);
    }
    assert_eq!(
        derive_network_magic("LocalGenesisNet"),
        Some(Magic([0xaa, 0x3b, 0xe2, 0x0d]))
    );
    // RIPEMD-160 of SHA-256 of nothing.
    assert_eq!(hash160(&[])[..4], [0xb4, 0x72, 0xa2, 0x66]);
}

#[test]
fn subsidy_is_split_evenly() {
    let scripts = vec![Script(vec![1]), Script(vec![2]), Script(vec![3])];
    let amounts = |subsidy: i64| -> Vec<i64> {
        let outputs = distribute_subsidy(subsidy, &scripts);
        assert_eq!(outputs.iter().map(|output| output.0).sum::<i64>(), subsidy);
        assert!(outputs.iter().zip(&scripts).all(|(output, script)| output.1 == *script));
        outputs.iter().map(|output| output.0).collect()
    };
    assert_eq!(amounts(11), vec![4, 4, 3]);
    assert_eq!(amounts(1), vec![1, 0, 0]);
    assert_eq!(amounts(0), vec![0, 0, 0]);
    assert_eq!(amounts(9), vec![3, 3, 3]);
    assert_eq!(amounts(i64::MAX), vec![3074457345618258603, 3074457345618258602, 3074457345618258602]);
}

#[test]
fn coinbase_transactions_follow_the_upgrade() {
    let heights = ConfiguredActivationHeights {
        sapling: Some(2),
        nu5: Some(4),
        ..Default::default()
    };
    let version = |height: u32| match coinbase_transaction_for_height(
        &heights,
        Height(height),
        vec![(5, Script(vec![1]))],
    ) {
        CoinbasePlan::RegtestGenesis => None,
        CoinbasePlan::Mined { version, height: h, outputs, miner_data } => {
            assert_eq!(h, Height(height));
            assert_eq!(outputs, vec![(5, Script(vec![1]))]);
            assert_eq!(miner_data, b"zebra-local-genesis".to_vec());
            Some(version)
        }
    };
    assert_eq!(version(0), None);
    assert_eq!(version(1), Some(CoinbaseVersion::V1));
    assert_eq!(version(2), Some(CoinbaseVersion::V4));
    assert_eq!(version(3), Some(CoinbaseVersion::V4));
    assert_eq!(version(4), Some(CoinbaseVersion::V5));
}

#[test]
fn commitments_follow_the_upgrade() {
    let heights = ConfiguredActivationHeights {
        overwinter: Some(1),
        sapling: Some(2),
        heartwood: Some(3),
        nu5: Some(5),
        ..Default::default()
    };
    let at = |height: u32, root: Option<[u8; 32]>| {
        commitment_plan_for_height(&heights, Height(height), root, [3; 32])
    };
    assert_eq!(at(0, None), Ok(CommitmentPlan::Bytes([0; 32])));
    assert_eq!(at(1, Some([9; 32])), Ok(CommitmentPlan::Bytes([0; 32])));
    assert_eq!(at(2, None), Ok(CommitmentPlan::Bytes([3; 32])));
    assert_eq!(at(3, Some([9; 32])), Ok(CommitmentPlan::Bytes([0; 32])));
    assert_eq!(at(4, Some([9; 32])), Ok(CommitmentPlan::Bytes([9; 32])));
    assert_eq!(at(4, None), Err(LocalGenesisError::MissingHistoryTree(Height(4))));
    assert_eq!(
        at(5, Some([9; 32])),
        Ok(CommitmentPlan::ChainHistoryBlockTxAuth { history_root: [9; 32] })
    );
    assert_eq!(at(5, None), Err(LocalGenesisError::MissingHistoryTree(Height(5))));

    // Where Nu5 and Heartwood activate together, the first block needs no history.
    let together = activation_heights_for_latest_upgrade(NetworkUpgrade::Nu5, Height(1)).unwrap();
    assert_eq!(
        commitment_plan_for_height(&together, Height(1), None, [3; 32]),
        Ok(CommitmentPlan::ChainHistoryBlockTxAuth { history_root: [0; 32] })
    );
    assert_eq!(together.nu6, None);
    let nu6 = activation_heights_for_latest_upgrade(NetworkUpgrade::Nu6, Height(1)).unwrap();
    assert_eq!((nu6.nu6, nu6.nu6_1), (Some(1), None));
}

#[test]
fn commitments_are_computed_from_the_history() {
    let heights = ConfiguredActivationHeights { nu5: Some(2), ..Default::default() };
    let transactions = vec![TestTx { version: None, amounts: vec![7], notes: Vec::new() }];
    let bytes = |height: u32, history: Vec<[u8; 32]>| {
        block_commitment_bytes_for_height(
            &heights,
            Height(height),
            &history,
            &transactions,
            [3; 32],
            &parts(),
        )
    };
    assert_eq!(bytes(1, Vec::new()), Ok([0; 32]));
    let root = mix(6, &[8; 64]);
    let auth = parts().auth_data_root(&transactions);
    assert_eq!(bytes(3, vec![[8; 32]; 2]), Ok(parts().block_commitment(&root, &auth)));
    assert_eq!(bytes(3, Vec::new()), Err(LocalGenesisError::MissingHistoryTree(Height(3))));
}

#[test]
fn refused_networks_are_errors() {
    let refused = |count: usize| TestParts { refused_checkpoints: vec![count], ..parts() };
    let error = LocalGenesisError::Parameters("refused".to_string());
    // The network with the placeholder, and the one with all checkpoints.
    assert_eq!(premined(2, &refused(1)).err(), Some(LocalGenesisError::Parameters("refused".to_string())));
    assert_eq!(premined(2, &refused(3)).err(), Some(LocalGenesisError::Parameters("refused".to_string())));
    assert!(premined(2, &refused(2)).is_ok());

    let mut chain = premined(2, &parts()).unwrap();
    chain.append_block(&parts(), Vec::new()).unwrap();
    assert_eq!(chain.rebuild_network(&refused(4)), Err(error));
    assert_eq!(chain.network.checkpoints.len(), 3);
    assert_eq!(chain.blocks.len(), 4);
}

#[test]
fn refused_blocks_leave_the_chain_as_it_is() {
    let mut chain = premined(2, &parts()).unwrap();
    let note = |n: u8| TestTx { version: None, amounts: Vec::new(), notes: vec![[n; 32], [n; 32]] };
    let cases = vec![
        (
            TestParts { subsidy: None, ..parts() },
            Vec::new(),
            LocalGenesisError::Subsidy("no subsidy".to_string()),
        ),
        (
            parts(),
            vec![note(1), note(2)],
            LocalGenesisError::Parameters("tree is full".to_string()),
        ),
        (
            TestParts { spacing_secs: i64::MAX, ..parts() },
            Vec::new(),
            LocalGenesisError::TimeOutOfRange(Height(3)),
        ),
        (
            TestParts { rooted_from: 9, ..parts() },
            Vec::new(),
            LocalGenesisError::MissingHistoryTree(Height(3)),
        ),
        (
            TestParts { history_room: 3, ..parts() },
            Vec::new(),
            LocalGenesisError::HistoryTree("history is full".to_string()),
        ),
    ];
    for (refusing, extra_txs, error) in cases {
        assert_eq!(chain.append_block(&refusing, extra_txs), Err(error));
        assert_eq!((chain.blocks.len(), chain.checkpoints.len()), (3, 3));
        assert_eq!((chain.history_tree.len(), chain.orchard_tree.len()), (3, 0));
    }
    // The same errors come while a chain is generated.
    let refusing = TestParts { history_room: 1, ..parts() };
    assert_eq!(
        premined(2, &refusing).err(),
        Some(LocalGenesisError::HistoryTree("history is full".to_string()))
    );
    let refusing = TestParts { rooted_from: 9, ..parts() };
    assert_eq!(
        premined(2, &refusing).err(),
        Some(LocalGenesisError::MissingHistoryTree(Height(2)))
    );
}

#[test]
fn genesis_is_shown_in_hex() {
    let chain = premined(0, &parts()).unwrap();
    let hex = chain.genesis_hex(|block| {
        Ok::<Vec<u8>, String>(block.header.previous_block_hash.0[..3].to_vec())
    });
    assert_eq!(hex, Ok("000000".to_string()));
    let failed = chain.genesis_hex(|_| Err::<Vec<u8>, String>("broken".to_string()));
    assert_eq!(failed, Err("broken".to_string()));
}

#[test]
fn orchard_commitments_are_kept_in_order() {
    let mut chain = premined(1, &parts()).unwrap();
    assert_eq!(chain.orchard_tree_root(&parts()), parts().orchard_root(&Vec::new()));
    let with_notes = |notes: &[u8]| TestTx {
        version: None,
        amounts: Vec::new(),
        notes: notes.iter().map(|note| [*note; 32]).collect(),
    };
    let extra_txs = vec![with_notes(&[1, 2]), with_notes(&[3])];
    assert_eq!(chain.append_block(&parts(), extra_txs.clone()), Ok(Height(2)));
    assert_eq!(chain.orchard_tree, vec![[1; 32], [2; 32], [3; 32]]);
    assert_eq!(chain.orchard_tree_root(&parts()), parts().orchard_root(&chain.orchard_tree));
    // The coinbase transaction comes first.
    let transactions = &chain.blocks[2].transactions;
    assert_eq!(transactions[0].version, Some(CoinbaseVersion::V5));
    assert_eq!(transactions[1..], extra_txs[..]);
}

#[test]
fn amounts_are_not_negative() {
    assert_eq!(Amount::new(-1), None);
    assert_eq!(Amount::new(0).map(|amount| amount.zatoshis()), Some(0));
    assert_eq!(Amount::new(i64::MAX).map(|amount| amount.zatoshis()), Some(i64::MAX));
}

#[test]
fn timestamps_lie_on_the_calendar() {
    assert!(Timestamp::new(FIRST_SECOND, 0).is_some());
    assert!(Timestamp::new(FIRST_SECOND - 1, 0).is_none());
    assert!(Timestamp::new(LAST_SECOND, 999_999_999).is_some());
    assert!(Timestamp::new(LAST_SECOND + 1, 0).is_none());
    assert!(Timestamp::new(i64::MAX, 0).is_none());
    assert!(Timestamp::new(i64::MIN, 0).is_none());
    assert!(Timestamp::new(0, 1_000_000_000).is_none());
    assert!(Timestamp::new(59, 1_999_999_999).is_some());
    assert!(Timestamp::new(-1, 1_000_000_000).is_some());
    assert!(Timestamp::new(59, 2_000_000_000).is_none());
}

#[test]
fn timestamps_are_moved() {
    let moved = |secs: i64, nanos: u32, delta: i64| {
        Timestamp::new(secs, nanos)
            .expect("an instant")
            .moved_by(delta)
            .map(|time| (time.secs(), time.nanos()))
    };
    assert_eq!(moved(100, 5, 75), Some((175, 5)));
    assert_eq!(moved(100, 5, -101), Some((-1, 5)));
    assert_eq!(moved(59, 1_000_000_007, 0), Some((59, 1_000_000_007)));
    assert_eq!(moved(59, 1_000_000_007, 1), Some((60, 7)));
    assert_eq!(moved(59, 1_000_000_007, -1), Some((59, 7)));
    assert_eq!(moved(LAST_SECOND - 1, 0, 1), Some((LAST_SECOND, 0)));
    assert_eq!(moved(LAST_SECOND, 0, 1), None);
    assert_eq!(moved(FIRST_SECOND, 0, -1), None);
    assert_eq!(moved(FIRST_SECOND, 0, LAST_SECOND - FIRST_SECOND), Some((LAST_SECOND, 0)));
    assert_eq!(moved(0, 0, i64::MAX), None);
    assert_eq!(moved(0, 0, i64::MIN), None);
}

#[test]
fn a_chain_can_run_out_of_calendar() {
    let generate = |count: u32| {
        let options = LocalTestnetGenesisOptions {
            start_time: Timestamp::new(LAST_SECOND - 80, 0).unwrap(),
            premined_block_count: count,
            ..LocalTestnetGenesisOptions::default()
        };
        generate_local_testnet_with_funded_keys(&names(&["miner"]), options, &parts())
    };
    assert_eq!(generate(1).unwrap().blocks[1].header.time.secs(), LAST_SECOND - 5);
    assert_eq!(generate(2).err(), Some(LocalGenesisError::TimeOutOfRange(Height(2))));
}
