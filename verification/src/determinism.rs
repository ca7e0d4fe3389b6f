//! What it takes to generate the same chain every time.

use crate::chain_parts::ChainParts;
use crate::generated_chain::{
    are_notes, are_tree_steps, flat, is_noted, pays_shares, GeneratedLocalTestnet,
};
use crate::keys::{FundedKeyMaterial, Script};
use crate::local_genesis::{
    commitment_at, is_commitment, is_history_commitment, Amount, Block, BlockHash, CoinbasePlan,
    Header, Network,
};
use crate::network::Height;
use crate::timestamp::{law_instants_are_told_by_their_parts, Timestamp};
use vstd::prelude::*;

verus! {

/// Whether two funded keys have the same contents.
pub open spec fn same_key(a: FundedKeyMaterial, b: FundedKeyMaterial) -> bool {
    &&& a.name@ == b.name@
    &&& a.secret_key_hex@ == b.secret_key_hex@
    &&& a.public_key_hex@ == b.public_key_hex@
    &&& a.address == b.address
}

/// Whether two coinbase transactions have the same contents.
pub open spec fn same_coinbase(a: CoinbasePlan, b: CoinbasePlan) -> bool {
    match (a, b) {
        (CoinbasePlan::RegtestGenesis, CoinbasePlan::RegtestGenesis) => true,
        (
            CoinbasePlan::Mined { version: v, height: h, outputs: o, miner_data: d },
            CoinbasePlan::Mined { version: w, height: k, outputs: p, miner_data: e },
        ) => {
            &&& v == w
            &&& h == k
            &&& d@ == e@
            &&& o@.len() == p@.len()
            &&& forall|i: int|
                0 <= i < o@.len() ==> (#[trigger] o@[i]).0 == p@[i].0 && o@[i].1.0@ == p@[i].1.0@
        },
        _ => false,
    }
}

/// Whether two blocks have the same contents.
pub open spec fn same_block<T>(a: Block<T>, b: Block<T>) -> bool {
    a.header == b.header && a.transactions@ == b.transactions@
}

/// Whether two networks have the same rules, which say nothing of the blocks that they hold.
pub open spec fn same_rules(a: Network, b: Network) -> bool {
    &&& a.network_name@ == b.network_name@
    &&& a.network_magic == b.network_magic
    &&& a.activation_heights == b.activation_heights
    &&& a.slow_start_interval == b.slow_start_interval
    &&& a.funding_stream_count == b.funding_stream_count
    &&& a.lockbox_disbursement_count == b.lockbox_disbursement_count
    &&& a.target_difficulty_limit == b.target_difficulty_limit
    &&& a.halving_interval == b.halving_interval
    &&& a.disable_pow == b.disable_pow
    &&& a.unshielded_coinbase_spends == b.unshielded_coinbase_spends
}

/// Whether two networks have the same parameters.
pub open spec fn same_network(a: Network, b: Network) -> bool {
    &&& same_rules(a, b)
    &&& a.genesis_hash == b.genesis_hash
    &&& a.checkpoints@ == b.checkpoints@
}

/// Whether two chains hold the same blocks, trees and funded keys.
pub open spec fn same_chain<P: ChainParts>(
    a: GeneratedLocalTestnet<P>,
    b: GeneratedLocalTestnet<P>,
) -> bool {
    &&& a.blocks@.len() == b.blocks@.len()
    &&& forall|i: int|
        0 <= i < a.blocks@.len() ==> same_block(#[trigger] a.blocks@[i], b.blocks@[i])
    &&& a.checkpoints@ == b.checkpoints@
    &&& a.history_tree == b.history_tree
    &&& a.sapling_root == b.sapling_root
    &&& a.orchard_tree == b.orchard_tree
    &&& a.funded_keys@.len() == b.funded_keys@.len()
    &&& forall|i: int|
        0 <= i < a.funded_keys@.len() ==> same_key(
            #[trigger] a.funded_keys@[i],
            b.funded_keys@[i],
        )
}

/// Whether the consensus rules in `parts` depend on the rules of the network and the height
/// alone.
pub open spec fn has_fixed_rules<P: ChainParts>(parts: P) -> bool {
    &&& forall|m: Network, n: Network, h: Height, x: Amount, y: Amount|
        same_rules(m, n) && #[trigger] call_ensures(
            P::block_subsidy,
            (&parts, &m, h),
            Ok::<Amount, String>(x),
        ) && #[trigger] call_ensures(P::block_subsidy, (&parts, &n, h), Ok::<Amount, String>(y))
            ==> x == y
    &&& forall|m: Network, n: Network, h: Height, x: i64, y: i64|
        same_rules(m, n) && #[trigger] call_ensures(P::target_spacing_secs, (&parts, &m, h), x)
            && #[trigger] call_ensures(P::target_spacing_secs, (&parts, &n, h), y) ==> x == y
    &&& forall|t: [u8; 32], x: u32, y: u32| #[trigger]
        call_ensures(P::compact_difficulty, (&parts, &t), x) && #[trigger] call_ensures(
            P::compact_difficulty,
            (&parts, &t),
            y,
        ) ==> x == y
}

/// Whether what `parts` make of transactions depends on their contents, and that of coinbase
/// transactions on the rules of the network too, alone.
pub open spec fn has_fixed_transactions<P: ChainParts>(parts: P) -> bool {
    &&& forall|
        m: Network,
        n: Network,
        c: CoinbasePlan,
        d: CoinbasePlan,
        x: P::Transaction,
        y: P::Transaction,
    |
        same_rules(m, n) && same_coinbase(c, d) && #[trigger] call_ensures(
            P::coinbase_transaction,
            (&parts, &m, &c),
            x,
        ) && #[trigger] call_ensures(P::coinbase_transaction, (&parts, &n, &d), y) ==> x == y
    &&& forall|t: P::Transaction, x: Vec<[u8; 32]>, y: Vec<[u8; 32]>| #[trigger]
        call_ensures(P::orchard_note_commitments, (&parts, &t), x) && #[trigger] call_ensures(
            P::orchard_note_commitments,
            (&parts, &t),
            y,
        ) ==> x@ == y@
    &&& forall|s: Vec<P::Transaction>, t: Vec<P::Transaction>, x: [u8; 32], y: [u8; 32]|
        s@ == t@ && #[trigger] call_ensures(P::merkle_root, (&parts, &s), x)
            && #[trigger] call_ensures(P::merkle_root, (&parts, &t), y) ==> x == y
    &&& forall|s: Vec<P::Transaction>, t: Vec<P::Transaction>, x: [u8; 32], y: [u8; 32]|
        s@ == t@ && #[trigger] call_ensures(P::auth_data_root, (&parts, &s), x)
            && #[trigger] call_ensures(P::auth_data_root, (&parts, &t), y) ==> x == y
}

/// Whether the hashes and trees in `parts` depend on what goes into them alone, and on no more
/// of the network than its rules.
pub open spec fn has_fixed_trees<P: ChainParts>(parts: P) -> bool {
    &&& forall|r: [u8; 32], a: [u8; 32], x: [u8; 32], y: [u8; 32]| #[trigger]
        call_ensures(P::block_commitment, (&parts, &r, &a), x) && #[trigger] call_ensures(
            P::block_commitment,
            (&parts, &r, &a),
            y,
        ) ==> x == y
    &&& forall|h: Header, x: BlockHash, y: BlockHash| #[trigger]
        call_ensures(P::block_hash, (&parts, &h), x) && #[trigger] call_ensures(
            P::block_hash,
            (&parts, &h),
            y,
        ) ==> x == y
    &&& forall|x: [u8; 32], y: [u8; 32]| #[trigger]
        call_ensures(P::sapling_root, (&parts,), x) && #[trigger] call_ensures(
            P::sapling_root,
            (&parts,),
            y,
        ) ==> x == y
    &&& forall|x: P::OrchardTree, y: P::OrchardTree| #[trigger]
        call_ensures(P::empty_orchard_tree, (&parts,), x) && #[trigger] call_ensures(
            P::empty_orchard_tree,
            (&parts,),
            y,
        ) ==> x == y
    &&& forall|t: P::OrchardTree, c: [u8; 32], x: P::OrchardTree, y: P::OrchardTree| #[trigger]
        call_ensures(P::append_note, (&parts, &t, &c), Ok::<P::OrchardTree, String>(x))
            && #[trigger] call_ensures(
            P::append_note,
            (&parts, &t, &c),
            Ok::<P::OrchardTree, String>(y),
        ) ==> x == y
    &&& forall|t: P::OrchardTree, x: [u8; 32], y: [u8; 32]| #[trigger]
        call_ensures(P::orchard_root, (&parts, &t), x) && #[trigger] call_ensures(
            P::orchard_root,
            (&parts, &t),
            y,
        ) ==> x == y
    &&& forall|x: P::HistoryTree, y: P::HistoryTree| #[trigger]
        call_ensures(P::empty_history, (&parts,), x) && #[trigger] call_ensures(
            P::empty_history,
            (&parts,),
            y,
        ) ==> x == y
    &&& forall|t: P::HistoryTree, x: Option<[u8; 32]>, y: Option<[u8; 32]>| #[trigger]
        call_ensures(P::history_root, (&parts, &t), x) && #[trigger] call_ensures(
            P::history_root,
            (&parts, &t),
            y,
        ) ==> x == y
    &&& forall|
        m: Network,
        n: Network,
        t: P::HistoryTree,
        a: Block<P::Transaction>,
        b: Block<P::Transaction>,
        s: [u8; 32],
        o: [u8; 32],
        x: P::HistoryTree,
        y: P::HistoryTree,
    |
        same_rules(m, n) && same_block(a, b) && #[trigger] call_ensures(
            P::push_history,
            (&parts, &m, &t, &a, &s, &o),
            Ok::<P::HistoryTree, String>(x),
        ) && #[trigger] call_ensures(
            P::push_history,
            (&parts, &n, &t, &b, &s, &o),
            Ok::<P::HistoryTree, String>(y),
        ) ==> x == y
}

/// Whether `parts` give the same answers to the same questions.
pub open spec fn is_deterministic<P: ChainParts>(parts: P) -> bool {
    &&& has_fixed_rules(parts)
    &&& has_fixed_transactions(parts)
    &&& has_fixed_trees(parts)
}

proof fn lemma_same_transactions<P: ChainParts>(
    a: GeneratedLocalTestnet<P>,
    b: GeneratedLocalTestnet<P>,
    parts: P,
    extra_txs: Seq<P::Transaction>,
    s: Seq<P::Transaction>,
    t: Seq<P::Transaction>,
)
    requires
        has_fixed_rules(parts),
        has_fixed_transactions(parts),
        same_chain(a, b),
        same_rules(a.network, b.network),
        a.are_next_transactions(parts, extra_txs, s),
        b.are_next_transactions(parts, extra_txs, t),
    ensures
        s == t,
{
    let (c, x) = choose|coinbase: CoinbasePlan, transaction: P::Transaction|
        {
            &&& a.is_next_coinbase(parts, coinbase)
            &&& #[trigger] call_ensures(
                P::coinbase_transaction,
                (&parts, &a.network, &coinbase),
                transaction,
            )
            &&& s == seq![transaction] + extra_txs
        };
    let (d, y) = choose|coinbase: CoinbasePlan, transaction: P::Transaction|
        {
            &&& b.is_next_coinbase(parts, coinbase)
            &&& #[trigger] call_ensures(
                P::coinbase_transaction,
                (&parts, &b.network, &coinbase),
                transaction,
            )
            &&& t == seq![transaction] + extra_txs
        };
    let (p, o) = choose|subsidy: Amount, outputs: Seq<(i64, Script)>|
        {
            &&& #[trigger] call_ensures(
                P::block_subsidy,
                (&parts, &a.network, a.new_height()),
                Ok::<Amount, String>(subsidy),
            )
            &&& #[trigger] pays_shares(outputs, subsidy.value(), a.funded_keys@)
            &&& c.is_for(a.network.activation_heights, a.new_height(), outputs)
        };
    let (q, r) = choose|subsidy: Amount, outputs: Seq<(i64, Script)>|
        {
            &&& #[trigger] call_ensures(
                P::block_subsidy,
                (&parts, &b.network, b.new_height()),
                Ok::<Amount, String>(subsidy),
            )
            &&& #[trigger] pays_shares(outputs, subsidy.value(), b.funded_keys@)
            &&& d.is_for(b.network.activation_heights, b.new_height(), outputs)
        };
    assert(p == q);
    assert forall|i: int| 0 <= i < o.len() implies (#[trigger] o[i]).0 == r[i].0 && o[i].1.0@
        == r[i].1.0@ by {
        assert(same_key(a.funded_keys@[i], b.funded_keys@[i]));
        assert(r[i].0 == o[i].0);
    }
    assert(same_coinbase(c, d));
    assert(x == y);
}

proof fn lemma_same_flat(a: Seq<Vec<[u8; 32]>>, b: Seq<Vec<[u8; 32]>>)
    requires
        a.len() == b.len(),
        forall|i: int| 0 <= i < a.len() ==> (#[trigger] a[i])@ == b[i]@,
    ensures
        flat(a) == flat(b),
    decreases a.len(),
{
    if a.len() > 0 {
        lemma_same_flat(a.drop_last(), b.drop_last());
        assert(a[a.len() - 1]@ == b[b.len() - 1]@);
    }
}

proof fn lemma_same_notes<P: ChainParts>(
    parts: P,
    transactions: Seq<P::Transaction>,
    m: Seq<[u8; 32]>,
    n: Seq<[u8; 32]>,
)
    requires
        has_fixed_transactions(parts),
        are_notes(parts, transactions, m),
        are_notes(parts, transactions, n),
    ensures
        m == n,
{
    let a = choose|lists: Seq<Vec<[u8; 32]>>|
        {
            &&& m == #[trigger] flat(lists)
            &&& lists.len() == transactions.len()
            &&& forall|i: int|
                0 <= i < lists.len() ==> call_ensures(
                    P::orchard_note_commitments,
                    (&parts, &transactions[i]),
                    #[trigger] lists[i],
                )
        };
    let b = choose|lists: Seq<Vec<[u8; 32]>>|
        {
            &&& n == #[trigger] flat(lists)
            &&& lists.len() == transactions.len()
            &&& forall|i: int|
                0 <= i < lists.len() ==> call_ensures(
                    P::orchard_note_commitments,
                    (&parts, &transactions[i]),
                    #[trigger] lists[i],
                )
        };
    assert forall|i: int| 0 <= i < a.len() implies (#[trigger] a[i])@ == b[i]@ by {
        assert(call_ensures(P::orchard_note_commitments, (&parts, &transactions[i]), b[i]));
    }
    lemma_same_flat(a, b);
}

proof fn lemma_same_tree_steps<P: ChainParts>(
    parts: P,
    notes: Seq<[u8; 32]>,
    s: Seq<P::OrchardTree>,
    t: Seq<P::OrchardTree>,
    upto: int,
)
    requires
        has_fixed_trees(parts),
        are_tree_steps(parts, notes, s),
        are_tree_steps(parts, notes, t),
        s[0] == t[0],
        0 <= upto <= notes.len(),
    ensures
        s[upto] == t[upto],
    decreases upto,
{
    if upto > 0 {
        lemma_same_tree_steps(parts, notes, s, t, upto - 1);
        let note = notes[upto - 1];
        assert(call_ensures(
            P::append_note,
            (&parts, &s[upto - 1], &note),
            Ok::<P::OrchardTree, String>(s[upto - 1 + 1]),
        ));
        assert(call_ensures(
            P::append_note,
            (&parts, &t[upto - 1], &note),
            Ok::<P::OrchardTree, String>(t[upto - 1 + 1]),
        ));
    }
}

proof fn lemma_same_orchard_tree<P: ChainParts>(
    a: GeneratedLocalTestnet<P>,
    b: GeneratedLocalTestnet<P>,
    parts: P,
    transactions: Seq<P::Transaction>,
    s: P::OrchardTree,
    t: P::OrchardTree,
)
    requires
        has_fixed_transactions(parts),
        has_fixed_trees(parts),
        same_chain(a, b),
        a.is_next_orchard_tree(parts, transactions, s),
        b.is_next_orchard_tree(parts, transactions, t),
    ensures
        s == t,
{
    let m = choose|notes: Seq<[u8; 32]>| #[trigger]
        are_notes(parts, transactions, notes) && is_noted(parts, a.orchard_tree, notes, s);
    let n = choose|notes: Seq<[u8; 32]>| #[trigger]
        are_notes(parts, transactions, notes) && is_noted(parts, b.orchard_tree, notes, t);
    lemma_same_notes(parts, transactions, m, n);
    let x = choose|trees: Seq<P::OrchardTree>|
        {
            &&& #[trigger] are_tree_steps(parts, m, trees)
            &&& trees[0] == a.orchard_tree
            &&& trees.last() == s
        };
    let y = choose|trees: Seq<P::OrchardTree>|
        {
            &&& #[trigger] are_tree_steps(parts, n, trees)
            &&& trees[0] == b.orchard_tree
            &&& trees.last() == t
        };
    lemma_same_tree_steps(parts, m, x, y, m.len() as int);
}

proof fn lemma_same_time<P: ChainParts>(
    a: GeneratedLocalTestnet<P>,
    b: GeneratedLocalTestnet<P>,
    parts: P,
    s: Timestamp,
    t: Timestamp,
)
    requires
        has_fixed_rules(parts),
        same_chain(a, b),
        same_rules(a.network, b.network),
        a.options.start_time == b.options.start_time,
        a.is_next_time(parts, s),
        b.is_next_time(parts, t),
    ensures
        s == t,
{
    if a.blocks@.len() > 0 {
        let x = choose|spacing_secs: i64| #[trigger]
            call_ensures(
                P::target_spacing_secs,
                (&parts, &a.network, a.new_height()),
                spacing_secs,
            ) && a.is_spaced(s, spacing_secs as int);
        let y = choose|spacing_secs: i64| #[trigger]
            call_ensures(
                P::target_spacing_secs,
                (&parts, &b.network, b.new_height()),
                spacing_secs,
            ) && b.is_spaced(t, spacing_secs as int);
        assert(x == y);
        let last = a.blocks@.len() - 1;
        assert(same_block(a.blocks@[last], b.blocks@[last]));
        law_instants_are_told_by_their_parts(s, t);
    }
}

proof fn lemma_same_commitment<P: ChainParts>(
    parts: P,
    a: GeneratedLocalTestnet<P>,
    b: GeneratedLocalTestnet<P>,
    s: Vec<P::Transaction>,
    t: Vec<P::Transaction>,
    x: [u8; 32],
    y: [u8; 32],
)
    requires
        has_fixed_transactions(parts),
        has_fixed_trees(parts),
        same_chain(a, b),
        same_rules(a.network, b.network),
        s@ == t@,
        is_commitment(
            parts,
            a.network.activation_heights,
            a.new_height(),
            a.history_tree,
            s,
            a.sapling_root@,
            x,
        ),
        is_commitment(
            parts,
            b.network.activation_heights,
            b.new_height(),
            b.history_tree,
            t,
            b.sapling_root@,
            y,
        ),
    ensures
        x == y,
{
    let heights = a.network.activation_heights;
    let r = choose|root: Option<[u8; 32]>|
        {
            &&& #[trigger] call_ensures(P::history_root, (&parts, &a.history_tree), root)
            &&& match commitment_at(heights, a.new_height(), root, a.sapling_root@) {
                Some((false, contents)) => x@ == contents,
                Some((true, contents)) => is_history_commitment(parts, contents, s, x),
                None => false,
            }
        };
    let q = choose|root: Option<[u8; 32]>|
        {
            &&& #[trigger] call_ensures(P::history_root, (&parts, &b.history_tree), root)
            &&& match commitment_at(heights, b.new_height(), root, b.sapling_root@) {
                Some((false, contents)) => y@ == contents,
                Some((true, contents)) => is_history_commitment(parts, contents, t, y),
                None => false,
            }
        };
    assert(r == q);
    let contents = commitment_at(heights, a.new_height(), r, a.sapling_root@)->0;
    if contents.0 {
        let (f, u) = choose|root: [u8; 32], auth: [u8; 32]|
            {
                &&& root@ == contents.1
                &&& #[trigger] call_ensures(P::auth_data_root, (&parts, &s), auth)
                &&& #[trigger] call_ensures(P::block_commitment, (&parts, &root, &auth), x)
            };
        let (g, v) = choose|root: [u8; 32], auth: [u8; 32]|
            {
                &&& root@ == contents.1
                &&& #[trigger] call_ensures(P::auth_data_root, (&parts, &t), auth)
                &&& #[trigger] call_ensures(P::block_commitment, (&parts, &root, &auth), y)
            };
        assert(f =~= g);
        assert(u == v);
    } else {
        assert(x =~= y);
    }
}

/// Chains that hold the same, under the same rules, still hold the same when blocks with the
/// same transactions were appended to them.
pub proof fn law_same_chains_grow_alike<P: ChainParts>(
    a: GeneratedLocalTestnet<P>,
    b: GeneratedLocalTestnet<P>,
    next_a: GeneratedLocalTestnet<P>,
    next_b: GeneratedLocalTestnet<P>,
    parts: P,
    extra_txs: Seq<P::Transaction>,
)
    requires
        is_deterministic(parts),
        same_chain(a, b),
        same_rules(a.network, b.network),
        a.options.start_time == b.options.start_time,
        next_a.extends(a, parts, extra_txs),
        next_b.extends(b, parts, extra_txs),
    ensures
        same_chain(next_a, next_b),
{
    let x = next_a.blocks@.last();
    let y = next_b.blocks@.last();
    lemma_same_transactions(a, b, parts, extra_txs, x.transactions@, y.transactions@);
    lemma_same_orchard_tree(
        a,
        b,
        parts,
        x.transactions@,
        next_a.orchard_tree,
        next_b.orchard_tree,
    );
    lemma_same_time(a, b, parts, x.header.time, y.header.time);
    lemma_same_commitment(
        parts,
        a,
        b,
        x.transactions,
        y.transactions,
        x.header.commitment_bytes,
        y.header.commitment_bytes,
    );
    assert(x.header.previous_block_hash.0 =~= y.header.previous_block_hash.0);
    assert(x.header.nonce =~= y.header.nonce);
    assert(x.header == y.header);
    let r = choose|orchard_root: [u8; 32]|
        {
            &&& #[trigger] call_ensures(
                P::orchard_root,
                (&parts, &next_a.orchard_tree),
                orchard_root,
            )
            &&& call_ensures(
                P::push_history,
                (&parts, &a.network, &a.history_tree, &x, &a.sapling_root, &orchard_root),
                Ok::<P::HistoryTree, String>(next_a.history_tree),
            )
        };
    let s = choose|orchard_root: [u8; 32]|
        {
            &&& #[trigger] call_ensures(
                P::orchard_root,
                (&parts, &next_b.orchard_tree),
                orchard_root,
            )
            &&& call_ensures(
                P::push_history,
                (&parts, &b.network, &b.history_tree, &y, &b.sapling_root, &orchard_root),
                Ok::<P::HistoryTree, String>(next_b.history_tree),
            )
        };
    assert(r == s);
    assert(next_a.history_tree == next_b.history_tree);
    assert(next_a.checkpoints@.last().1 == next_b.checkpoints@.last().1);
    assert(next_a.checkpoints@ =~= next_b.checkpoints@);
    assert forall|i: int| 0 <= i < next_a.blocks@.len() implies same_block(
        #[trigger] next_a.blocks@[i],
        next_b.blocks@[i],
    ) by {
        if i < a.blocks@.len() {
            assert(same_block(a.blocks@[i], b.blocks@[i]));
        }
    }
}

}
