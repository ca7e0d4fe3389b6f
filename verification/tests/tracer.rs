//! Tests for the structured JSONL tracer.

use std::cell::Cell;
use std::time::Instant;

use zebra_devkit::channel::is_queue_capacity_fit;
use zebra_devkit::config::TracerConfig;
use zebra_devkit::counters::{Counters, DropWarnConfig, TableCounters, TracerStats};
use zebra_devkit::schema::{
    BlockAdvertised, BlockGossiped, BlockVerified, PeerMessage, TxAddedToMempool, TxGossiped,
    TxPushed, TxRejected, TxVerified,
};
use zebra_devkit::trace_event::TraceEvent;
use zebra_devkit::tracer::{queue_for, Offer, Queue, StopActions, Tracer, TracerStart, WriteOutcome};
use zebra_devkit::writer::{file_name, json_line, Stage, WriterState};

fn peer_message(command: &str) -> PeerMessage {
    PeerMessage {
        direction: "in".to_string(),
        command: command.to_string(),
        peer_addr: "127.0.0.1:8233".to_string(),
        message_bytes: None,
        block_hash: None,
        block_height: None,
    }
}

fn block_advertised() -> BlockAdvertised {
    BlockAdvertised {
        hash: "00000000abcdef".to_string(),
        peer_addr: "127.0.0.1:8233".to_string(),
    }
}

/// What the tests send through a tracer.
enum Payload {
    Peer(PeerMessage),
    Block(BlockAdvertised),
}

fn start(config: &TracerConfig) -> TracerStart<Payload> {
    Tracer::from_config(config).expect("failed to create tracer")
}

#[test]
fn noop_tracer_is_not_collecting() {
    let tracer: Tracer<Payload> = Tracer::noop();
    assert!(!tracer.is_collecting());

    let mut counters = Counters::empty();
    let mut drop_warn = DropWarnConfig::new(1_000, 30);
    let outcome = tracer.write_lazy::<PeerMessage, _>(&mut counters, &mut drop_warn, || {
        Payload::Peer(peer_message("test"))
    });
    assert!(matches!(outcome, WriteOutcome::NotCollected));
}

/// Disabled-table fast path: the event builder closure must not be called.
#[test]
fn disabled_table_does_not_build_event() {
    let config = TracerConfig {
        enabled: true,
        // Only enable "block_advertised", not "peer_message"
        tables: vec!["block_advertised".to_string()],
        ..Default::default()
    };

    let mut started = start(&config);
    let drop_warn = started.drop_warn.as_mut().expect("a running tracer warns of drops");

    // Use a flag to detect if the builder closure runs
    let builder_called = Cell::new(false);

    let outcome = started.tracer.write_lazy::<PeerMessage, _>(&mut started.counters, drop_warn, || {
        builder_called.set(true);
        Payload::Peer(peer_message("test"))
    });

    assert!(
        !builder_called.get(),
        "builder should not be called for a disabled table"
    );
    assert!(matches!(outcome, WriteOutcome::NotCollected));

    started.handle.stop();
}

#[test]
fn drop_counter_increments_on_overflow() {
    let config = TracerConfig {
        enabled: true,
        // Use a tiny queue to force drops
        event_queue_size: 1,
        peer_message_queue_size: 1,
        ..Default::default()
    };

    let mut started = start(&config);
    let drop_warn = started.drop_warn.as_mut().expect("a running tracer warns of drops");

    // Flood events to force drops
    for _ in 0..100 {
        started.tracer.write_lazy::<PeerMessage, _>(&mut started.counters, drop_warn, || {
            Payload::Peer(peer_message("ping"))
        });
    }

    let stats = started.tracer.snapshot(&started.counters);
    // At least some events should have been dropped with queue size 1
    let peer_stats = stats.tables.get("peer_message");
    assert!(peer_stats.is_some(), "should have peer_message stats");
    let (written, dropped, _errors) = peer_stats.unwrap();
    assert!(
        dropped > 0 || written > 0,
        "should have written or dropped events, got written={written}, dropped={dropped}"
    );
    // No writer takes anything out, so all but the first were dropped.
    assert_eq!((written, dropped), (0, 99));

    started.handle.stop();
}

#[test]
fn table_filtering() {
    let config = TracerConfig {
        enabled: true,
        tables: vec!["peer_message".to_string()],
        ..Default::default()
    };

    let mut started = start(&config);

    assert!(started.tracer.is_table_enabled("peer_message"));
    assert!(!started.tracer.is_table_enabled("block_advertised"));

    // Emit events for both tables
    let drop_warn = started.drop_warn.as_mut().expect("a running tracer warns of drops");
    started.tracer.write_lazy::<PeerMessage, _>(&mut started.counters, drop_warn, || {
        Payload::Peer(peer_message("inv"))
    });
    started.tracer.write_lazy::<BlockAdvertised, _>(&mut started.counters, drop_warn, || {
        Payload::Block(block_advertised())
    });

    started.handle.stop();

    // Only events for peer_message.jsonl should have come through
    let seat = started.seat.expect("a running tracer has a writer");
    let event = seat.peer_rx.receiver().try_recv().expect("peer_message.jsonl should exist");
    assert_eq!(file_name(event.table), "peer_message.jsonl");
    assert!(matches!(&event.payload, Payload::Peer(message) if message.command == "inv"));
    assert!(seat.peer_rx.receiver().try_recv().is_err());
    assert!(
        seat.event_rx.receiver().try_recv().is_err(),
        "block_advertised.jsonl should NOT exist when table is filtered out"
    );
}

#[test]
fn config_validation_rejects_zero_queue_size() {
    let config = TracerConfig {
        enabled: true,
        peer_message_queue_size: 0,
        ..Default::default()
    };
    assert!(config.validate().is_err());

    let config = TracerConfig {
        enabled: true,
        event_queue_size: 0,
        ..Default::default()
    };
    assert!(config.validate().is_err());
}

#[test]
fn first_config_fault_decides() {
    let mut config = TracerConfig {
        enabled: true,
        peer_message_queue_size: 0,
        event_queue_size: 0,
        max_txids_per_event: 0,
        ..Default::default()
    };
    assert_eq!(
        config.validate(),
        Err("peer_message_queue_size must be > 0".to_string())
    );
    assert!(Tracer::<Payload>::from_config(&config)
        .is_err_and(|message| message == "peer_message_queue_size must be > 0"));

    config.peer_message_queue_size = 1;
    assert_eq!(config.validate(), Err("event_queue_size must be > 0".to_string()));

    config.event_queue_size = 1;
    assert_eq!(
        config.validate(),
        Err("max_txids_per_event must be > 0".to_string())
    );

    config.max_txids_per_event = 1;
    assert_eq!(config.validate(), Ok(()));
}

#[test]
fn default_config_is_disabled_and_valid() {
    let config = TracerConfig::default();
    assert!(!config.enabled);
    assert_eq!(config.trace_dir, "traces");
    assert!(config.tables.is_empty());
    assert_eq!(config.peer_message_queue_size, 16_384);
    assert_eq!(config.event_queue_size, 4_096);
    assert_eq!(config.node_id, "");
    assert_eq!(config.warn_every_dropped, 1_000);
    assert_eq!(config.warn_interval_secs, 30);
    assert_eq!(config.max_txids_per_event, 32);
    assert!(config.validate().is_ok());
    assert!(is_queue_capacity_fit(config.peer_message_queue_size));
    assert!(!is_queue_capacity_fit(usize::MAX));
}

#[test]
fn disabled_config_gives_a_noop() {
    // A disabled configuration is not looked at any further.
    let config = TracerConfig {
        enabled: false,
        peer_message_queue_size: 0,
        ..Default::default()
    };
    let mut started = start(&config);
    assert!(!started.tracer.is_collecting());
    assert!(!started.tracer.is_table_enabled("peer_message"));
    assert!(started.seat.is_none());
    assert!(started.drop_warn.is_none());
    assert_eq!(
        started.handle.stop(),
        StopActions { send_stop: false, join_writer: false }
    );
    assert_eq!(started.tracer.snapshot(&Counters::known()).tables.len(), 0);
}

#[test]
fn stopping_twice_stops_once() {
    let config = TracerConfig { enabled: true, ..Default::default() };
    let mut started = start(&config);
    assert_eq!(
        started.handle.stop(),
        StopActions { send_stop: true, join_writer: true }
    );
    assert_eq!(
        started.handle.stop(),
        StopActions { send_stop: false, join_writer: false }
    );
}

#[test]
fn runs_have_random_numbers() {
    let config = TracerConfig { enabled: true, ..Default::default() };
    let a = start(&config).seat.expect("a writer").run_id;
    let b = start(&config).seat.expect("a writer").run_id;
    assert_ne!(a, b);

    let fixed: TracerStart<Payload> =
        Tracer::from_config_for_run(&config, 7).expect("failed to create tracer");
    assert_eq!(fixed.seat.expect("a writer").run_id, 7);
}

#[test]
fn full_peer_queue_does_not_block_events() {
    let config = TracerConfig {
        enabled: true,
        peer_message_queue_size: 1,
        event_queue_size: 4096,
        ..Default::default()
    };
    let started = start(&config);
    assert_eq!(queue_for("peer_message"), Queue::Peer);
    assert_eq!(queue_for("block_advertised"), Queue::Event);

    let first = started.tracer.offer::<PeerMessage, _>(|| Payload::Peer(peer_message("ping")));
    assert!(matches!(first, Offer::Queued(Queue::Peer, _)));
    for _ in 0..50 {
        let refused = started.tracer.offer::<PeerMessage, _>(|| Payload::Peer(peer_message("pong")));
        match refused {
            Offer::Refused(Queue::Peer, refusal) => {
                assert_eq!(refusal.refused().table, "peer_message");
                assert!(matches!(refusal.into_message().payload, Payload::Peer(message) if message.command == "pong"));
            }
            _ => panic!("a full queue should hand the event back"),
        }
    }
    let event = started.tracer.offer::<BlockAdvertised, _>(|| Payload::Block(block_advertised()));
    assert!(matches!(event, Offer::Queued(Queue::Event, _)));

    let seat = started.seat.expect("a writer");
    let received = seat.event_rx.receiver().try_recv().expect("the event queue holds the event");
    assert!(matches!(received.payload, Payload::Block(block) if block.hash == "00000000abcdef"));
}

/// A clone feeds the queues of the tracer that it was cloned from.
#[test]
fn clones_share_their_queues() {
    let config = TracerConfig {
        enabled: true,
        event_queue_size: 2,
        ..Default::default()
    };
    let mut started = start(&config);
    let clone = started.tracer.clone();
    assert!(clone.is_collecting());

    let first = started.tracer.offer::<BlockAdvertised, _>(|| Payload::Block(block_advertised()));
    let second = clone.offer::<BlockAdvertised, _>(|| Payload::Block(block_advertised()));
    let third = started.tracer.offer::<BlockAdvertised, _>(|| Payload::Block(block_advertised()));
    assert!(matches!(first, Offer::Queued(Queue::Event, _)));
    assert!(matches!(second, Offer::Queued(Queue::Event, _)));
    assert!(matches!(third, Offer::Refused(Queue::Event, _)));

    // The clone takes part in counting and warning too.
    let drop_warn = started.drop_warn.as_mut().expect("a running tracer warns of drops");
    let outcome = clone.write_lazy::<BlockAdvertised, _>(&mut started.counters, drop_warn, || {
        Payload::Block(block_advertised())
    });
    assert!(matches!(outcome, WriteOutcome::Dropped(_, Some(1))));
    let stats = clone.snapshot(&started.counters);
    assert_eq!(stats.tables.get("block_advertised"), Some((0, 1, 0)));

    let seat = started.seat.expect("a writer");
    assert!(seat.event_rx.receiver().try_recv().is_ok());
    assert!(seat.event_rx.receiver().try_recv().is_ok());
    assert!(seat.event_rx.receiver().try_recv().is_err());
    assert!(Tracer::<Payload>::noop().clone().snapshot(&started.counters).tables.len() == 0);
}

/// What is written, dropped and lost to errors adds up to what was offered, and counts only
/// grow.
#[test]
fn a_run_is_balanced() {
    let config = TracerConfig {
        enabled: true,
        peer_message_queue_size: 3,
        ..Default::default()
    };
    let mut started = start(&config);
    let drop_warn = started.drop_warn.as_mut().expect("a running tracer warns of drops");
    let mut last = (0, 0, 0);
    for _ in 0..5 {
        started.tracer.write_lazy::<PeerMessage, _>(&mut started.counters, drop_warn, || {
            Payload::Peer(peer_message("ping"))
        });
        let now = started.tracer.snapshot(&started.counters).tables.get("peer_message").unwrap();
        assert!(last.0 <= now.0 && last.1 <= now.1 && last.2 <= now.2);
        last = now;
    }

    let seat = started.seat.expect("a writer");
    let mut state = WriterState::new();
    let mut written: Vec<u8> = Vec::new();
    while let Ok(event) = seat.peer_rx.receiver().try_recv() {
        let mut stage = state.start_event(event.table);
        while !matches!(stage, Stage::Done(_)) {
            if stage == Stage::Write {
                written.extend(json_line(b"{}".to_vec()));
            }
            stage = state.advance_event(event.table, stage, true, &mut started.counters);
        }
    }
    assert_eq!(written, b"{}\n{}\n{}\n");
    let stats = started.tracer.snapshot(&started.counters);
    assert_eq!(stats.tables.get("peer_message"), Some((3, 2, 0)));
    assert_eq!(stats.tables.get("tx_pushed"), Some((0, 0, 0)));
    assert_eq!(stats.tables.len(), 9);
    // Only the table that events were written to has a file.
    assert_eq!(state.table_count(), 1);
}

#[test]
fn drops_are_warned_of_first_and_every_n() {
    let mut counters = Counters::known();
    let mut drop_warn = DropWarnConfig::new(3, 1_000_000);
    let warnings: Vec<Option<u64>> =
        (0..8).map(|_| counters.record_dropped("tx_pushed", &mut drop_warn)).collect();
    assert_eq!(
        warnings,
        vec![Some(1), None, None, Some(4), None, None, Some(7), None]
    );
    let counted = counters.get("tx_pushed").expect("a known table");
    assert_eq!(counted.dropped, 8);
    assert_eq!(counted.last_warned_dropped, 7);

    assert_eq!(counters.record_dropped("unknown", &mut drop_warn), None);
    assert!(counters.get("unknown").is_none());
}

#[test]
fn drops_are_warned_of_after_the_interval() {
    let mut drop_warn = DropWarnConfig::new(1_000, 30);
    let mut counters = TableCounters { dropped: 5, last_warned_dropped: 1, ..TableCounters::new() };
    assert_eq!(drop_warn.warn_interval_nanos, 30_000_000_000);
    let now = Instant::now();
    assert!(!drop_warn.should_warn_after(&mut counters, 29_999_999_999, now));
    assert_eq!(counters.last_warned_dropped, 1);
    assert!(drop_warn.should_warn_after(&mut counters, 30_000_000_000, now));
    assert_eq!(counters.last_warned_dropped, 5);
    assert!(drop_warn.last_warn_time == now);

    // The interval starts anew with every warning, whatever called for it.
    let later = now + std::time::Duration::from_secs(1);
    let mut first = TableCounters { dropped: 1, ..TableCounters::new() };
    assert!(drop_warn.should_warn_after(&mut first, 0, later));
    assert!(drop_warn.last_warn_time == later);

    // With an interval of nothing, every drop is overdue.
    let mut eager = DropWarnConfig::new(1_000, 0);
    let mut counters = TableCounters { dropped: 2, last_warned_dropped: 1, ..TableCounters::new() };
    assert!(eager.should_warn("tx_pushed", &mut counters));
}

#[test]
fn counters_add_up_at_shutdown() {
    let mut counters = Counters::known();
    counters.record_written("peer_message");
    counters.record_written("peer_message");
    counters.record_error("tx_rejected");
    counters.record_written("no_such_table");
    let mut drop_warn = DropWarnConfig::new(1_000, 30);
    counters.record_dropped("block_gossiped", &mut drop_warn);

    let summary = counters.shutdown_summary();
    assert_eq!(summary.total_written, 2);
    assert_eq!(summary.total_dropped, 1);
    assert_eq!(summary.total_errors, 1);
    let rows: Vec<(String, u64, u64, u64)> = summary
        .tables
        .iter()
        .map(|row| (row.table.clone(), row.written, row.dropped, row.errors))
        .collect();
    assert_eq!(
        rows,
        vec![
            ("peer_message".to_string(), 2, 0, 0),
            ("block_gossiped".to_string(), 0, 1, 0),
            ("tx_rejected".to_string(), 0, 0, 1),
        ]
    );

    let stats = counters.snapshot();
    assert_eq!(stats.tables.len(), 9);
    assert_eq!(stats.tables.get("peer_message"), Some((2, 0, 0)));
    assert_eq!(stats.tables.get("tx_verified"), Some((0, 0, 0)));
    assert_eq!(stats.tables.get("no_such_table"), None);
    assert_eq!(TracerStats::default().tables.len(), 0);
}

#[test]
fn every_event_has_its_table() {
    let counters = Counters::known();
    let tables = vec![
        (PeerMessage::table(), "peer_message"),
        (BlockAdvertised::table(), "block_advertised"),
        (BlockGossiped::table(), "block_gossiped"),
        (BlockVerified::table(), "block_verified"),
        (TxPushed::table(), "tx_pushed"),
        (TxVerified::table(), "tx_verified"),
        (TxAddedToMempool::table(), "tx_added_to_mempool"),
        (TxGossiped::table(), "tx_gossiped"),
        (TxRejected::table(), "tx_rejected"),
    ];
    for (table, name) in tables {
        assert_eq!(table, name);
        assert_eq!(counters.get(table), Some(TableCounters::new()));
    }
}

#[test]
fn gossiped_ids_are_capped() {
    let ids: Vec<String> = vec!["a".to_string(), "b".to_string(), "c".to_string()];
    let whole = TxGossiped::new(ids.clone(), 3);
    assert_eq!((whole.tx_count, whole.truncated), (3, false));
    assert_eq!(whole.txids, ids);

    let capped = TxGossiped::new(ids, 2);
    assert_eq!((capped.tx_count, capped.truncated), (3, true));
    assert_eq!(capped.txids, vec!["a".to_string(), "b".to_string()]);
}
