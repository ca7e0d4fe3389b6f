//! The tracer: what is collected, through which queue it goes, and what becomes of it.

use crate::channel::{
    bounded, queue_capacity_fits, try_send, QueueRx, QueueTx, Receipt, Refusal,
};
use crate::clock::instant_now;
use crate::config::{config_fault, TracerConfig};
use crate::counters::{
    is_drop_recorded, is_known_table, snapshot_of, zero_counters, Counters, DropWarnConfig,
    TableCounters, TracerStats,
};
use crate::text::{clone_names, contains_name, str_eq};
use crate::trace_event::TraceEvent;
use std::sync::Arc;
use vstd::prelude::*;

verus! {

/// The queue that an event goes through.
#[derive(Clone, Copy, Debug, PartialEq, Eq, Structural)]
pub enum Queue {
    /// The queue for peer messages (high-volume).
    Peer,
    /// The queue for all other events.
    Event,
}

/// The queue that the events of `table` go through.
pub open spec fn queue_of(table: Seq<char>) -> Queue {
    if table == "peer_message"@ {
        Queue::Peer
    } else {
        Queue::Event
    }
}

/// The queue that the events of `table` go through.
pub fn queue_for(table: &str) -> (queue: Queue)
    ensures
        queue == queue_of(table@),
{
    if str_eq(table, "peer_message") {
        Queue::Peer
    } else {
        Queue::Event
    }
}

/// An event on its way to the writer, in a form that does not depend on its type.
pub struct ErasedEvent<P> {
    /// The event's table.
    pub table: &'static str,
    /// What the writer makes the event's line from.
    pub payload: P,
}

/// What all producers share.
#[verifier::reject_recursive_types(P)]
struct SharedState<P> {
    /// Sender for peer message events (high-volume).
    peer_tx: QueueTx<ErasedEvent<P>>,
    /// Sender for general events.
    event_tx: QueueTx<ErasedEvent<P>>,
    /// Tables we are collecting. Empty means all.
    enabled_tables: Vec<String>,
}

/// A structured JSONL tracer.
///
/// A noop tracer does not collect anything. Clones share the queues.
#[verifier::reject_recursive_types(P)]
pub struct Tracer<P> {
    shared: Option<Arc<SharedState<P>>>,
}

/// Which parts of a writer are still to be shut down.
#[derive(Debug)]
pub struct TracerHandle {
    control_open: bool,
    writer_running: bool,
}

/// What is left to do to shut a writer down.
#[derive(Clone, Copy, Debug, PartialEq, Eq, Structural)]
pub struct StopActions {
    /// Send the stop command.
    pub send_stop: bool,
    /// Wait for the writer to end.
    pub join_writer: bool,
}

/// The writer's end of a tracer.
#[verifier::reject_recursive_types(P)]
pub struct WriterSeat<P> {
    /// Directory where JSONL trace files are written.
    pub trace_dir: String,
    /// Receiver for peer message events.
    pub peer_rx: QueueRx<ErasedEvent<P>>,
    /// Receiver for general events.
    pub event_rx: QueueRx<ErasedEvent<P>>,
    /// The number of this run.
    pub run_id: u128,
    /// The node identifier.
    pub node_id: String,
}

/// What a tracer starts with.
#[verifier::reject_recursive_types(P)]
pub struct TracerStart<P> {
    /// The producers' end.
    pub tracer: Tracer<P>,
    /// What is needed to stop the writer.
    pub handle: TracerHandle,
    /// Per-table counters.
    pub counters: Counters,
    /// Drop warning thresholds, unless the tracer is a noop.
    pub drop_warn: Option<DropWarnConfig>,
    /// The writer's end, unless the tracer is a noop.
    pub seat: Option<WriterSeat<P>>,
}

/// What became of an event that was offered to a tracer.
#[verifier::reject_recursive_types(P)]
pub enum Offer<P> {
    /// The event's table is not collected, so the event was not built.
    NotCollected,
    /// The event was queued.
    Queued(Queue, Receipt<ErasedEvent<P>>),
    /// The queue refused the event.
    Refused(Queue, Refusal<ErasedEvent<P>>),
}

/// What became of an event that was written to a tracer.
#[verifier::reject_recursive_types(P)]
pub enum WriteOutcome<P> {
    /// The event's table is not collected, so the event was not built.
    NotCollected,
    /// The event was queued.
    Queued(Receipt<ErasedEvent<P>>),
    /// The queue refused the event. The dropped count is there if it should be warned of.
    Dropped(Refusal<ErasedEvent<P>>, Option<u64>),
}

/// A random number from `rand::random`. Nothing is claimed of it: two calls need not agree.
#[verifier::external_body]
pub fn random_run_id() -> (run_id: u128) {
    rand::random()
}

impl TracerHandle {
    /// Whether the stop command can still be sent.
    pub closed spec fn control_is_open(&self) -> bool {
        self.control_open
    }

    /// Whether the writer has still to be waited for.
    pub closed spec fn writer_is_running(&self) -> bool {
        self.writer_running
    }

    /// Stops the tracer: says what is left to do, and leaves nothing to do for a second call.
    pub fn stop(&mut self) -> (actions: StopActions)
        ensures
            actions == (StopActions {
                send_stop: old(self).control_is_open(),
                join_writer: old(self).writer_is_running(),
            }),
            !final(self).control_is_open(),
            !final(self).writer_is_running(),
    {
        let actions = StopActions {
            send_stop: self.control_open,
            join_writer: self.writer_running,
        };
        self.control_open = false;
        self.writer_running = false;
        actions
    }
}

/// The names in a list.
pub open spec fn names_in(names: Seq<String>) -> Set<Seq<char>> {
    Set::new(|name: Seq<char>| exists|i: int| 0 <= i < names.len() && (#[trigger] names[i])@ == name)
}

/// What a tracer starts with when it collects events.
pub open spec fn is_running_start<P>(
    start: TracerStart<P>,
    config: TracerConfig,
    run_id: u128,
) -> bool {
    &&& start.tracer.collecting()
    &&& start.tracer.filter() == names_in(config.tables@)
    &&& start.handle.control_is_open()
    &&& start.handle.writer_is_running()
    &&& start.counters.wf()
    &&& forall|name: Seq<char>| #[trigger]
        start.counters@.dom().contains(name) <==> is_known_table(name)
    &&& forall|name: Seq<char>| #[trigger]
        start.counters@.dom().contains(name) ==> start.counters@[name] == zero_counters()
    &&& start.drop_warn matches Some(warn) && {
        &&& warn.warn_every_dropped == config.warn_every_dropped
        &&& warn.warn_interval_nanos == config.warn_interval_secs * 1_000_000_000
        &&& call_ensures(instant_now, (), warn.last_warn_time)
    }
    &&& start.tracer.tx(Queue::Peer).capacity() == config.peer_message_queue_size
    &&& start.tracer.tx(Queue::Event).capacity() == config.event_queue_size
    &&& start.seat matches Some(seat) && {
        &&& seat.trace_dir@ == config.trace_dir@
        &&& seat.run_id == run_id
        &&& seat.node_id@ == config.node_id@
        &&& seat.peer_rx.tx() == start.tracer.tx(Queue::Peer)
        &&& seat.event_rx.tx() == start.tracer.tx(Queue::Event)
    }
}

/// What a tracer starts with when tracing is disabled.
pub open spec fn is_noop_start<P>(start: TracerStart<P>) -> bool {
    &&& !start.tracer.collecting()
    &&& !start.handle.control_is_open()
    &&& !start.handle.writer_is_running()
    &&& start.counters.wf()
    &&& start.counters@ == Map::<Seq<char>, TableCounters>::empty()
    &&& start.drop_warn is None
    &&& start.seat is None
}

impl<P> Clone for Tracer<P> {
    fn clone(&self) -> (tracer: Self)
        ensures
            tracer == *self,
    {
        match &self.shared {
            Some(shared) => Tracer { shared: Some(Arc::clone(shared)) },
            None => Tracer { shared: None },
        }
    }
}

impl<P> Tracer<P> {
    /// Whether this tracer collects events.
    pub closed spec fn collecting(&self) -> bool {
        self.shared is Some
    }

    /// The tables that are collected. Empty means all.
    pub closed spec fn filter(&self) -> Set<Seq<char>> {
        match self.shared {
            Some(shared) => names_in(shared.enabled_tables@),
            None => Set::empty(),
        }
    }

    /// The sending end of a queue of a tracer that collects events.
    pub closed spec fn tx(&self, queue: Queue) -> QueueTx<ErasedEvent<P>> {
        match queue {
            Queue::Peer => self.shared->0.peer_tx,
            Queue::Event => self.shared->0.event_tx,
        }
    }

    /// Whether `event` is what `f` gave for an event of `T`.
    pub open spec fn is_event_of<T: TraceEvent, F: FnOnce() -> P>(
        event: ErasedEvent<P>,
        f: F,
    ) -> bool {
        event.table@ == T::table_name() && call_ensures(f, (), event.payload)
    }

    /// Whether this tracer collects the events of `table`.
    pub open spec fn table_enabled(&self, table: Seq<char>) -> bool {
        self.collecting() && (self.filter() == Set::<Seq<char>>::empty() || self.filter().contains(
            table,
        ))
    }

    /// Creates a noop tracer.
    pub fn noop() -> (tracer: Self)
        ensures
            !tracer.collecting(),
    {
        Tracer { shared: None }
    }

    /// Creates a tracer from configuration, for the run `run_id`.
    ///
    /// The tracer is a noop if the configuration is not enabled. Otherwise an invalid
    /// configuration is refused.
    pub fn from_config_for_run(config: &TracerConfig, run_id: u128) -> (started: Result<
        TracerStart<P>,
        String,
    >)
        requires
            config.enabled && config_fault(*config) is None ==> queue_capacity_fits(
                config.peer_message_queue_size,
            ) && queue_capacity_fits(config.event_queue_size),
        ensures
            if !config.enabled {
                started matches Ok(start) && is_noop_start(start)
            } else {
                match config_fault(*config) {
                    Some(fault) => started matches Err(message) && message@ == fault,
                    None => started matches Ok(start) && is_running_start(start, *config, run_id),
                }
            },
    {
        if !config.enabled {
            return Ok(
                TracerStart {
                    tracer: Self::noop(),
                    handle: TracerHandle { control_open: false, writer_running: false },
                    counters: Counters::empty(),
                    drop_warn: None,
                    seat: None,
                },
            );
        }
        if let Err(message) = config.validate() {
            return Err(message);
        }
        let (peer_tx, peer_rx) = bounded(config.peer_message_queue_size);
        let (event_tx, event_rx) = bounded(config.event_queue_size);
        let shared = SharedState {
            peer_tx,
            event_tx,
            enabled_tables: clone_names(&config.tables),
        };
        Ok(
            TracerStart {
                tracer: Tracer { shared: Some(Arc::new(shared)) },
                handle: TracerHandle { control_open: true, writer_running: true },
                counters: Counters::known(),
                drop_warn: Some(
                    DropWarnConfig::new(config.warn_every_dropped, config.warn_interval_secs),
                ),
                seat: Some(
                    WriterSeat {
                        trace_dir: config.trace_dir.clone(),
                        peer_rx,
                        event_rx,
                        run_id,
                        node_id: config.node_id.clone(),
                    },
                ),
            },
        )
    }

    /// Creates a tracer from configuration, for a run with a random number.
    pub fn from_config(config: &TracerConfig) -> (started: Result<TracerStart<P>, String>)
        requires
            config.enabled && config_fault(*config) is None ==> queue_capacity_fits(
                config.peer_message_queue_size,
            ) && queue_capacity_fits(config.event_queue_size),
        ensures
            if !config.enabled {
                started matches Ok(start) && is_noop_start(start)
            } else {
                match config_fault(*config) {
                    Some(fault) => started matches Err(message) && message@ == fault,
                    None => started matches Ok(start) && exists|run_id: u128|
                        #![trigger is_running_start(start, *config, run_id)]
                        call_ensures(random_run_id, (), run_id) && is_running_start(
                            start,
                            *config,
                            run_id,
                        ),
                }
            },
    {
        let draw = random_run_id;
        Self::from_config_for_run(config, draw())
    }

    /// Returns true if this tracer is actively collecting events.
    pub fn is_collecting(&self) -> (collecting: bool)
        ensures
            collecting == self.collecting(),
    {
        self.shared.is_some()
    }

    /// Returns true if this tracer is collecting events for the given table.
    pub fn is_table_enabled(&self, table: &str) -> (enabled: bool)
        ensures
            enabled == self.table_enabled(table@),
    {
        match &self.shared {
            None => false,
            Some(shared) => {
                let empty = shared.enabled_tables.is_empty();
                let listed = contains_name(&shared.enabled_tables, table);
                proof {
                    if empty {
                        assert(self.filter() =~= Set::<Seq<char>>::empty());
                    } else {
                        assert(self.filter().contains(shared.enabled_tables@[0]@));
                    }
                }
                empty || listed
            },
        }
    }

    /// Offers a trace event to its queue, constructing it lazily.
    ///
    /// The closure is only called if tracing is enabled for the event's table. A queue that
    /// has no room refuses the event at once.
    pub fn offer<T: TraceEvent, F: FnOnce() -> P>(&self, f: F) -> (offer: Offer<P>)
        requires
            self.table_enabled(T::table_name()) ==> call_requires(f, ()),
        ensures
            match offer {
                Offer::NotCollected => !self.table_enabled(T::table_name()),
                Offer::Queued(queue, receipt) => {
                    &&& self.table_enabled(T::table_name())
                    &&& queue == queue_of(T::table_name())
                    &&& receipt.tx() == self.tx(queue)
                    &&& Self::is_event_of::<T, F>(receipt.message(), f)
                },
                Offer::Refused(queue, refusal) => {
                    &&& self.table_enabled(T::table_name())
                    &&& queue == queue_of(T::table_name())
                    &&& refusal.tx() == self.tx(queue)
                    &&& Self::is_event_of::<T, F>(refusal.message(), f)
                },
            },
    {
        let table = T::table();
        if !self.is_table_enabled(table) {
            return Offer::NotCollected;
        }
        match &self.shared {
            None => Offer::NotCollected,
            Some(shared) => {
                let event = Box::new(ErasedEvent { table, payload: f() });
                let queue = queue_for(table);
                let tx = match queue {
                    Queue::Peer => &shared.peer_tx,
                    Queue::Event => &shared.event_tx,
                };
                match try_send(tx, event) {
                    Ok(receipt) => Offer::Queued(queue, receipt),
                    Err(refusal) => Offer::Refused(queue, refusal),
                }
            },
        }
    }

    /// Writes a trace event, constructing it lazily.
    ///
    /// The closure is only called if tracing is enabled for the event's table. An event that
    /// its queue refuses is dropped and counted.
    pub fn write_lazy<T: TraceEvent, F: FnOnce() -> P>(
        &self,
        counters: &mut Counters,
        drop_warn: &mut DropWarnConfig,
        f: F,
    ) -> (outcome: WriteOutcome<P>)
        requires
            self.table_enabled(T::table_name()) ==> call_requires(f, ()),
            old(counters).wf(),
            old(counters)@.dom().contains(T::table_name())
                ==> old(counters)@[T::table_name()].dropped < u64::MAX,
        ensures
            final(counters).wf(),
            final(counters).order() == old(counters).order(),
            (outcome is NotCollected) == !self.table_enabled(T::table_name()),
            match outcome {
                WriteOutcome::NotCollected => {
                    &&& final(counters)@ == old(counters)@
                    &&& *final(drop_warn) == *old(drop_warn)
                },
                WriteOutcome::Queued(receipt) => {
                    &&& receipt.tx() == self.tx(queue_of(T::table_name()))
                    &&& Self::is_event_of::<T, F>(receipt.message(), f)
                    &&& final(counters)@ == old(counters)@
                    &&& *final(drop_warn) == *old(drop_warn)
                },
                WriteOutcome::Dropped(refusal, warning) => {
                    &&& refusal.tx() == self.tx(queue_of(T::table_name()))
                    &&& Self::is_event_of::<T, F>(refusal.message(), f)
                    &&& is_drop_recorded(
                        old(counters)@,
                        final(counters)@,
                        T::table_name(),
                        *old(drop_warn),
                        *final(drop_warn),
                        warning,
                    )
                },
            },
    {
        match self.offer::<T, F>(f) {
            Offer::NotCollected => WriteOutcome::NotCollected,
            Offer::Queued(_, receipt) => WriteOutcome::Queued(receipt),
            Offer::Refused(_, refusal) => {
                let warning = counters.record_dropped(refusal.refused().table, drop_warn);
                WriteOutcome::Dropped(refusal, warning)
            },
        }
    }

    /// Gets a snapshot of tracer statistics. A noop tracer has none.
    pub fn snapshot(&self, counters: &Counters) -> (stats: TracerStats)
        requires
            counters.wf(),
        ensures
            stats.tables.wf(),
            stats.tables@ == (if self.collecting() {
                snapshot_of(counters@)
            } else {
                Map::<Seq<char>, (u64, u64, u64)>::empty()
            }),
    {
        if self.shared.is_some() {
            counters.snapshot()
        } else {
            TracerStats::default()
        }
    }
}

}
