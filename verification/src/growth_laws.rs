//! What holds of every generated chain.

use crate::chain_parts::ChainParts;
use crate::determinism::{
    is_deterministic, law_same_chains_grow_alike, same_chain, same_key, same_network, same_rules,
};
use crate::generated_chain::{
    is_growth, law_appended_blocks_are_linked, tip_hash, GeneratedLocalTestnet,
};
use crate::keys::FundedKeyMaterial;
use crate::local_genesis::{genesis_previous_hash, LocalTestnetGenesisOptions, Network};
use crate::network::{Height, NetworkKind};
use crate::timestamp::{moved, Timestamp};
use vstd::prelude::*;

verus! {

/// While a chain grows, it stays well formed, and its network, keys and options stay the same.
pub proof fn lemma_growth<P: ChainParts>(
    chains: Seq<GeneratedLocalTestnet<P>>,
    names: Seq<Seq<char>>,
    options: LocalTestnetGenesisOptions,
    parts: P,
    upto: int,
)
    requires
        is_growth(chains, names, options, parts),
        0 <= upto < chains.len(),
    ensures
        chains[upto].wf(),
        chains[upto].is_hashed(parts),
        chains[upto].blocks@.len() == upto,
        chains[upto].network == chains[0].network,
        chains[upto].funded_keys == chains[0].funded_keys,
        chains[upto].options == options,
    decreases upto,
{
    if upto > 0 {
        lemma_growth(chains, names, options, parts, upto - 1);
        assert(chains[upto].extends(chains[upto - 1], parts, Seq::empty()));
        law_appended_blocks_are_linked(chains[upto - 1], chains[upto], parts, Seq::empty());
    }
}

proof fn lemma_growth_keeps_blocks<P: ChainParts>(
    chains: Seq<GeneratedLocalTestnet<P>>,
    names: Seq<Seq<char>>,
    options: LocalTestnetGenesisOptions,
    parts: P,
    from: int,
    upto: int,
)
    requires
        is_growth(chains, names, options, parts),
        0 <= from <= upto < chains.len(),
    ensures
        chains[upto].blocks@.take(from) == chains[from].blocks@,
        chains[upto].checkpoints@.take(from) == chains[from].checkpoints@,
    decreases upto - from,
{
    lemma_growth(chains, names, options, parts, from);
    lemma_growth(chains, names, options, parts, upto);
    if from < upto {
        lemma_growth(chains, names, options, parts, upto - 1);
        lemma_growth_keeps_blocks(chains, names, options, parts, from, upto - 1);
        assert(chains[upto].extends(chains[upto - 1], parts, Seq::empty()));
    }
    assert(chains[upto].blocks@.take(from) =~= chains[from].blocks@);
    assert(chains[upto].checkpoints@.take(from) =~= chains[from].checkpoints@);
}

/// Whether `part` is `chain` as far as its first `count` blocks go.
pub open spec fn is_part_of<P: ChainParts>(
    part: GeneratedLocalTestnet<P>,
    chain: GeneratedLocalTestnet<P>,
    count: int,
) -> bool {
    &&& part.wf()
    &&& part.blocks@ == chain.blocks@.take(count)
    &&& part.checkpoints@ == chain.checkpoints@.take(count)
    &&& part.funded_keys == chain.funded_keys
    &&& part.options == chain.options
}

/// Each block of a generated chain is the next block of the chain below it: it has the coinbase
/// transaction and the commitment of its height, the time after the block before it, and no
/// further transactions.
pub proof fn law_generated_blocks_follow_the_rules<P: ChainParts>(
    chain: GeneratedLocalTestnet<P>,
    names: Seq<Seq<char>>,
    options: LocalTestnetGenesisOptions,
    parts: P,
    i: int,
)
    requires
        chain.is_generated(names, options, parts),
        0 <= i <= options.premined_block_count,
    ensures
        exists|part: GeneratedLocalTestnet<P>| #[trigger]
            is_part_of(part, chain, i) && part.is_next_block(
                parts,
                Seq::empty(),
                chain.blocks@[i],
            ),
        chain.blocks@[i].transactions@.len() == 1,
{
    let chains = choose|chains: Seq<GeneratedLocalTestnet<P>>|
        {
            &&& #[trigger] is_growth(chains, names, options, parts)
            &&& chains.len() == options.premined_block_count + 2
            &&& chain.is_rebuilt(chains.last(), parts)
        };
    let last = chains.len() - 1;
    lemma_growth(chains, names, options, parts, i);
    lemma_growth(chains, names, options, parts, i + 1);
    lemma_growth(chains, names, options, parts, last);
    lemma_growth_keeps_blocks(chains, names, options, parts, i, last);
    lemma_growth_keeps_blocks(chains, names, options, parts, i + 1, last);
    assert(chains[i + 1].extends(chains[i], parts, Seq::empty()));
    assert(chains[i + 1].blocks@.last() == chains[last].blocks@.take(i + 1)[i]);
    assert(is_part_of(chains[i], chain, i));
}

/// The blocks of a generated chain are at the heights from zero through the number of premined
/// blocks. Each checkpoint holds the hash of its block, each block names the one before it, and
/// genesis names none. Genesis has the start time, and each later block comes the target spacing
/// of its height after the one before it.
pub proof fn law_generated_chain_is_linked_from_genesis<P: ChainParts>(
    chain: GeneratedLocalTestnet<P>,
    names: Seq<Seq<char>>,
    options: LocalTestnetGenesisOptions,
    parts: P,
    i: int,
)
    requires
        chain.is_generated(names, options, parts),
        0 <= i <= options.premined_block_count,
    ensures
        chain.wf(),
        chain.blocks@.len() == options.premined_block_count + 1,
        chain.checkpoints@.len() == options.premined_block_count + 1,
        chain.checkpoints@[i].0.0 == i,
        call_ensures(
            P::block_hash,
            (&parts, &chain.blocks@[i].header),
            chain.checkpoints@[i].1,
        ),
        chain.blocks@[i].header.previous_block_hash.0@ == if i == 0 {
            genesis_previous_hash()
        } else {
            chain.checkpoints@[i - 1].1.0@
        },
        i == 0 ==> chain.blocks@[i].header.time == options.start_time,
        i > 0 ==> exists|network: Network, spacing_secs: i64|
            {
                &&& options.heights() == Some(network.activation_heights)
                &&& #[trigger] call_ensures(
                    P::target_spacing_secs,
                    (&parts, &network, Height(i as u32)),
                    spacing_secs,
                )
                &&& is_after(
                    chain.blocks@[i].header.time,
                    chain.blocks@[i - 1].header.time,
                    spacing_secs as int,
                )
            },
        chain.network.genesis_hash.0@ == chain.checkpoints@[0].1.0@,
        chain.network.checkpoints@ == chain.checkpoints@,
{
    let chains = choose|chains: Seq<GeneratedLocalTestnet<P>>|
        {
            &&& #[trigger] is_growth(chains, names, options, parts)
            &&& chains.len() == options.premined_block_count + 2
            &&& chain.is_rebuilt(chains.last(), parts)
        };
    lemma_growth(chains, names, options, parts, chains.len() - 1);
    assert(chain.is_hashed(parts));
    assert(chain.blocks@[i].header.previous_block_hash.0@ == tip_hash(chain.checkpoints@.take(i)));
    law_generated_blocks_follow_the_rules(chain, names, options, parts, i);
    let part = choose|part: GeneratedLocalTestnet<P>| #[trigger]
        is_part_of(part, chain, i) && part.is_next_block(parts, Seq::empty(), chain.blocks@[i]);
    if i > 0 {
        let spacing = choose|spacing_secs: i64| #[trigger]
            call_ensures(
                P::target_spacing_secs,
                (&parts, &part.network, part.new_height()),
                spacing_secs,
            ) && part.is_spaced(chain.blocks@[i].header.time, spacing_secs as int);
        assert(part.tip_time() == chain.blocks@[i - 1].header.time);
        assert(call_ensures(
            P::target_spacing_secs,
            (&parts, &part.network, Height(i as u32)),
            spacing,
        ));
    }
}

/// Whether `time` lies `spacing_secs` after `earlier`.
pub open spec fn is_after(time: Timestamp, earlier: Timestamp, spacing_secs: int) -> bool {
    (time.secs_view(), time.nanos_view()) == moved(
        earlier.secs_view(),
        earlier.nanos_view(),
        spacing_secs,
    )
}

/// A name always gives the same key.
pub proof fn law_names_determine_keys(
    a: FundedKeyMaterial,
    b: FundedKeyMaterial,
    name: Seq<char>,
    network_kind: NetworkKind,
)
    requires
        a.is_for(name, network_kind),
        b.is_for(name, network_kind),
    ensures
        same_key(a, b),
{
    assert(a.address.pub_key_hash =~= b.address.pub_key_hash);
}

/// A generated chain has one funded key for each name, in order.
pub proof fn law_generated_keys_are_those_of_the_names<P: ChainParts>(
    chain: GeneratedLocalTestnet<P>,
    names: Seq<Seq<char>>,
    options: LocalTestnetGenesisOptions,
    parts: P,
)
    requires
        chain.is_generated(names, options, parts),
    ensures
        chain.funded_keys@.len() == names.len(),
        forall|i: int|
            0 <= i < names.len() ==> (#[trigger] chain.funded_keys@[i]).is_for(
                names[i],
                NetworkKind::Testnet,
            ),
{
    let chains = choose|chains: Seq<GeneratedLocalTestnet<P>>|
        {
            &&& #[trigger] is_growth(chains, names, options, parts)
            &&& chains.len() == options.premined_block_count + 2
            &&& chain.is_rebuilt(chains.last(), parts)
        };
    lemma_growth(chains, names, options, parts, chains.len() - 1);
}

/// The key material of a generated chain depends on the trimmed name alone: not on its place,
/// the other names or the options.
pub proof fn law_funded_keys_depend_on_their_names_alone<P: ChainParts, Q: ChainParts>(
    a: GeneratedLocalTestnet<P>,
    b: GeneratedLocalTestnet<Q>,
    names_a: Seq<Seq<char>>,
    names_b: Seq<Seq<char>>,
    options_a: LocalTestnetGenesisOptions,
    options_b: LocalTestnetGenesisOptions,
    parts_a: P,
    parts_b: Q,
    i: int,
    j: int,
)
    requires
        a.is_generated(names_a, options_a, parts_a),
        b.is_generated(names_b, options_b, parts_b),
        0 <= i < a.funded_keys@.len(),
        0 <= j < b.funded_keys@.len(),
        a.funded_keys@[i].name@ == b.funded_keys@[j].name@,
    ensures
        same_key(a.funded_keys@[i], b.funded_keys@[j]),
{
    law_generated_keys_are_those_of_the_names(a, names_a, options_a, parts_a);
    law_generated_keys_are_those_of_the_names(b, names_b, options_b, parts_b);
    law_names_determine_keys(
        a.funded_keys@[i],
        b.funded_keys@[j],
        names_a[i],
        NetworkKind::Testnet,
    );
}

/// Whether options ask for the same chain, up to the number of its blocks.
pub open spec fn alike(a: LocalTestnetGenesisOptions, b: LocalTestnetGenesisOptions) -> bool {
    &&& a.network_name@ == b.network_name@
    &&& a.magic() == b.magic()
    &&& a.heights() == b.heights()
    &&& a.start_time == b.start_time
    &&& a.disable_pow == b.disable_pow
}

proof fn lemma_alike_networks(
    a: Network,
    b: Network,
    options_a: LocalTestnetGenesisOptions,
    options_b: LocalTestnetGenesisOptions,
)
    requires
        alike(options_a, options_b),
        a.is_for(options_a, a.genesis_hash.0@, a.checkpoints@),
        b.is_for(options_b, b.genesis_hash.0@, b.checkpoints@),
    ensures
        same_rules(a, b),
{
    assert(a.network_magic.0 =~= b.network_magic.0);
    assert(a.target_difficulty_limit =~= b.target_difficulty_limit);
}

proof fn lemma_same_growth<P: ChainParts>(
    chains_a: Seq<GeneratedLocalTestnet<P>>,
    chains_b: Seq<GeneratedLocalTestnet<P>>,
    names: Seq<Seq<char>>,
    options_a: LocalTestnetGenesisOptions,
    options_b: LocalTestnetGenesisOptions,
    parts: P,
    upto: int,
)
    requires
        is_deterministic(parts),
        is_growth(chains_a, names, options_a, parts),
        is_growth(chains_b, names, options_b, parts),
        alike(options_a, options_b),
        0 <= upto < chains_a.len(),
        upto < chains_b.len(),
    ensures
        same_chain(chains_a[upto], chains_b[upto]),
    decreases upto,
{
    if upto == 0 {
        let a = chains_a[0];
        let b = chains_b[0];
        assert(a.checkpoints@ =~= b.checkpoints@);
        assert forall|i: int| 0 <= i < a.funded_keys@.len() implies same_key(
            #[trigger] a.funded_keys@[i],
            b.funded_keys@[i],
        ) by {
            assert(b.funded_keys@[i].is_for(names[i], NetworkKind::Testnet));
            law_names_determine_keys(
                a.funded_keys@[i],
                b.funded_keys@[i],
                names[i],
                NetworkKind::Testnet,
            );
        }
    } else {
        let last = upto - 1;
        lemma_same_growth(chains_a, chains_b, names, options_a, options_b, parts, last);
        lemma_growth(chains_a, names, options_a, parts, last);
        lemma_growth(chains_b, names, options_b, parts, last);
        lemma_alike_networks(
            chains_a[last].network,
            chains_b[last].network,
            options_a,
            options_b,
        );
        assert(chains_a[upto].extends(chains_a[upto - 1], parts, Seq::empty()));
        assert(chains_b[upto].extends(chains_b[upto - 1], parts, Seq::empty()));
        law_same_chains_grow_alike(
            chains_a[last],
            chains_b[last],
            chains_a[upto],
            chains_b[upto],
            parts,
            Seq::empty(),
        );
    }
}

/// Chains that hold the same have the same network once it was rebuilt, however many of their
/// blocks were premined and however many appended. Rebuilding leaves what they hold as it is.
pub proof fn law_same_chains_have_the_same_network<P: ChainParts>(
    a: GeneratedLocalTestnet<P>,
    b: GeneratedLocalTestnet<P>,
    rebuilt_a: GeneratedLocalTestnet<P>,
    rebuilt_b: GeneratedLocalTestnet<P>,
    parts: P,
)
    requires
        same_chain(a, b),
        alike(a.options, b.options),
        rebuilt_a.is_rebuilt(a, parts),
        rebuilt_b.is_rebuilt(b, parts),
    ensures
        same_network(rebuilt_a.network, rebuilt_b.network),
        same_chain(rebuilt_a, rebuilt_b),
        same_chain(rebuilt_a, a),
{
    lemma_alike_networks(rebuilt_a.network, rebuilt_b.network, a.options, b.options);
    assert(rebuilt_a.network.genesis_hash.0 =~= rebuilt_b.network.genesis_hash.0);
}

/// Generation is deterministic: the same names and options give the same blocks, checkpoints,
/// trees, funded keys and network, every time, where the parts give the same answers to the same
/// questions.
pub proof fn law_generation_is_deterministic<P: ChainParts>(
    a: GeneratedLocalTestnet<P>,
    b: GeneratedLocalTestnet<P>,
    names: Seq<Seq<char>>,
    options_a: LocalTestnetGenesisOptions,
    options_b: LocalTestnetGenesisOptions,
    parts: P,
)
    requires
        is_deterministic(parts),
        a.is_generated(names, options_a, parts),
        b.is_generated(names, options_b, parts),
        alike(options_a, options_b),
        options_a.premined_block_count == options_b.premined_block_count,
    ensures
        same_chain(a, b),
        same_network(a.network, b.network),
{
    let chains_a = choose|chains: Seq<GeneratedLocalTestnet<P>>|
        {
            &&& #[trigger] is_growth(chains, names, options_a, parts)
            &&& chains.len() == options_a.premined_block_count + 2
            &&& a.is_rebuilt(chains.last(), parts)
        };
    let chains_b = choose|chains: Seq<GeneratedLocalTestnet<P>>|
        {
            &&& #[trigger] is_growth(chains, names, options_b, parts)
            &&& chains.len() == options_b.premined_block_count + 2
            &&& b.is_rebuilt(chains.last(), parts)
        };
    let last = chains_a.len() - 1;
    lemma_growth(chains_a, names, options_a, parts, last);
    lemma_growth(chains_b, names, options_b, parts, last);
    lemma_same_growth(chains_a, chains_b, names, options_a, options_b, parts, last);
    law_same_chains_have_the_same_network(chains_a[last], chains_b[last], a, b, parts);
}

/// Appending a block without further transactions to a generated chain is the same as premining
/// one more: the block comes right above the premined ones, and the chains hold the same blocks,
/// checkpoints and trees. Once the network was rebuilt, it is the same too.
pub proof fn law_appending_extends_what_was_premined<P: ChainParts>(
    chain: GeneratedLocalTestnet<P>,
    longer: GeneratedLocalTestnet<P>,
    appended: GeneratedLocalTestnet<P>,
    rebuilt: GeneratedLocalTestnet<P>,
    names: Seq<Seq<char>>,
    options: LocalTestnetGenesisOptions,
    longer_options: LocalTestnetGenesisOptions,
    parts: P,
)
    requires
        is_deterministic(parts),
        chain.is_generated(names, options, parts),
        longer.is_generated(names, longer_options, parts),
        alike(options, longer_options),
        longer_options.premined_block_count == options.premined_block_count + 1,
        appended.extends(chain, parts, Seq::empty()),
        rebuilt.is_rebuilt(appended, parts),
    ensures
        chain.new_height().0 == options.premined_block_count + 1,
        same_chain(appended, longer),
        same_network(rebuilt.network, longer.network),
        same_chain(rebuilt, longer),
{
    let chains = choose|chains: Seq<GeneratedLocalTestnet<P>>|
        {
            &&& #[trigger] is_growth(chains, names, options, parts)
            &&& chains.len() == options.premined_block_count + 2
            &&& chain.is_rebuilt(chains.last(), parts)
        };
    let more = choose|chains: Seq<GeneratedLocalTestnet<P>>|
        {
            &&& #[trigger] is_growth(chains, names, longer_options, parts)
            &&& chains.len() == longer_options.premined_block_count + 2
            &&& longer.is_rebuilt(chains.last(), parts)
        };
    let last = chains.len() - 1;
    lemma_growth(chains, names, options, parts, last);
    lemma_growth(more, names, longer_options, parts, last);
    lemma_growth(more, names, longer_options, parts, last + 1);
    lemma_same_growth(chains, more, names, options, longer_options, parts, last);
    lemma_alike_networks(chain.network, more[last].network, options, longer_options);
    assert(more[last + 1].extends(more[last + 1 - 1], parts, Seq::empty()));
    law_same_chains_grow_alike(chain, more[last], appended, more[last + 1], parts, Seq::empty());
    law_same_chains_have_the_same_network(appended, more[last + 1], rebuilt, longer, parts);
}

}
