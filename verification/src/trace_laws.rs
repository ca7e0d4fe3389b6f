//! What holds of the tracer over several events.

use crate::counters::{
    bumped, is_known_table, marked_warned, one_more_drop, DropWarnConfig, TableCounters,
};
use crate::schema::{
    BlockAdvertised, BlockGossiped, BlockVerified, PeerMessage, TxAddedToMempool, TxGossiped,
    TxPushed, TxRejected, TxVerified,
};
use crate::text::{digit_char, hex_digits};
use crate::trace_event::TraceEvent;
use crate::tracer::{queue_of, Queue};
use crate::writer::low_bits;
use vstd::prelude::*;

verus! {

/// The drops of every event type of the schema are counted.
pub proof fn law_schema_events_are_counted()
    ensures
        is_known_table(PeerMessage::table_name()),
        is_known_table(BlockAdvertised::table_name()),
        is_known_table(BlockGossiped::table_name()),
        is_known_table(BlockVerified::table_name()),
        is_known_table(TxPushed::table_name()),
        is_known_table(TxVerified::table_name()),
        is_known_table(TxAddedToMempool::table_name()),
        is_known_table(TxGossiped::table_name()),
        is_known_table(TxRejected::table_name()),
{
}

/// Peer messages have a queue to themselves: no other event of the schema can fill it.
pub proof fn law_peer_messages_have_their_own_queue()
    ensures
        queue_of(PeerMessage::table_name()) == Queue::Peer,
        queue_of(BlockAdvertised::table_name()) == Queue::Event,
        queue_of(BlockGossiped::table_name()) == Queue::Event,
        queue_of(BlockVerified::table_name()) == Queue::Event,
        queue_of(TxPushed::table_name()) == Queue::Event,
        queue_of(TxVerified::table_name()) == Queue::Event,
        queue_of(TxAddedToMempool::table_name()) == Queue::Event,
        queue_of(TxGossiped::table_name()) == Queue::Event,
        queue_of(TxRejected::table_name()) == Queue::Event,
{
    reveal_strlit("peer_message");
    reveal_strlit("block_advertised");
    reveal_strlit("block_gossiped");
    reveal_strlit("block_verified");
    reveal_strlit("tx_pushed");
    reveal_strlit("tx_verified");
    reveal_strlit("tx_added_to_mempool");
    reveal_strlit("tx_gossiped");
    reveal_strlit("tx_rejected");
    assert("block_advertised"@[0] == 'b');
    assert("block_gossiped"@[0] == 'b');
    assert("block_verified"@[0] == 'b');
    assert("tx_pushed"@[0] == 't');
    assert("tx_verified"@[0] == 't');
    assert("tx_added_to_mempool"@[0] == 't');
    assert("tx_gossiped"@[0] == 't');
    assert("tx_rejected"@[0] == 't');
}

/// After a drop, fewer than `warn_every_dropped` drops of its table have gone without a
/// warning, however much time has passed.
pub proof fn law_unwarned_drops_are_bounded(
    config: DropWarnConfig,
    counters: TableCounters,
    elapsed: u128,
)
    requires
        counters.wf(),
        counters.dropped < u64::MAX,
    ensures
        ({
            let counted = one_more_drop(counters);
            let after = marked_warned(counted, config.warning_due(counted, elapsed));
            &&& after.wf()
            &&& after.dropped - after.last_warned_dropped < config.warn_every_dropped
                || after.dropped == after.last_warned_dropped
        }),
{
}

/// The first drop of a table is warned of, and so is every drop once an interval has passed
/// without a warning.
pub proof fn law_first_and_overdue_drops_are_warned_of(
    config: DropWarnConfig,
    counters: TableCounters,
    elapsed: u128,
)
    requires
        counters.dropped < u64::MAX,
        counters.dropped == 0 || elapsed >= config.warn_interval_nanos,
    ensures
        config.warning_due(one_more_drop(counters), elapsed),
{
}

/// The next sequence number after `n` more envelopes.
pub open spec fn seq_after(seq: u64, n: nat) -> u64
    decreases n,
{
    if n == 0 {
        seq
    } else {
        bumped(seq_after(seq, (n - 1) as nat))
    }
}

/// The envelopes of a run are numbered upwards, without gaps, from wherever they start.
pub proof fn law_envelopes_are_numbered_in_order(seq: u64, n: nat)
    requires
        seq + n <= u64::MAX,
    ensures
        seq_after(seq, n) == seq + n,
    decreases n,
{
    if n > 0 {
        law_envelopes_are_numbered_in_order(seq, (n - 1) as nat);
    }
}

/// Below 2^64 nanoseconds, a later reading of the monotonic clock is no smaller in 64 bits, and
/// it is the reading itself.
pub proof fn law_monotonic_ns_keeps_order(earlier: u128, later: u128)
    requires
        earlier <= later < 0x1_0000_0000_0000_0000,
    ensures
        low_bits(earlier) <= low_bits(later),
        low_bits(later) == later,
{
}

/// A run ID has as many digits as asked for, each a lowercase hexadecimal one.
pub proof fn law_run_id_is_hexadecimal(n: nat, width: nat)
    ensures
        hex_digits(n, width).len() == width,
        forall|i: int|
            0 <= i < width ==> {
                let c = #[trigger] hex_digits(n, width)[i];
                ('0' <= c && c <= '9') || ('a' <= c && c <= 'f')
            },
    decreases width,
{
    if width > 0 {
        law_run_id_is_hexadecimal(n / 16, (width - 1) as nat);
    }
}

/// The number that `width` hexadecimal digits can tell apart.
pub open spec fn sixteen_to(width: nat) -> nat
    decreases width,
{
    if width == 0 {
        1
    } else {
        16 * sixteen_to((width - 1) as nat)
    }
}

/// Different runs have different run IDs.
pub proof fn law_run_ids_differ(a: nat, b: nat, width: nat)
    requires
        a < sixteen_to(width),
        b < sixteen_to(width),
        hex_digits(a, width) == hex_digits(b, width),
    ensures
        a == b,
    decreases width,
{
    if width > 0 {
        let da = hex_digits(a / 16, (width - 1) as nat);
        let db = hex_digits(b / 16, (width - 1) as nat);
        assert(hex_digits(b, width).last() == digit_char(b % 16));
        assert(da =~= hex_digits(a, width).drop_last());
        assert(db =~= hex_digits(b, width).drop_last());
        law_run_ids_differ(a / 16, b / 16, (width - 1) as nat);
    }
}

}
