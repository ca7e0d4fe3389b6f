//! Tests for the background writer's decisions.

use zebra_devkit::clock::timestamp;
use zebra_devkit::counters::Counters;
use zebra_devkit::peer_tx::{MessageInfo, PeerError, PeerTx, SendOutcome};
use zebra_devkit::tracer::Queue;
use zebra_devkit::writer::{
    file_name, json_line, nanos_low_bits, FlushVerdict, LoopAction, Stage, Verdict, Wake,
    WriterContext, WriterState, FLUSH_INTERVAL_NANOS, WRITES_BEFORE_FLUSH,
};

/// Handles one event, with the given outcomes of serializing, opening and writing.
fn handle(
    state: &mut WriterState,
    counters: &mut Counters,
    table: &str,
    serialized: bool,
    opened: bool,
    written: bool,
) -> Verdict {
    let mut stage = state.start_event(table);
    loop {
        let success = match stage {
            Stage::Serialize => serialized,
            Stage::Open => opened,
            Stage::Write => written,
            Stage::Done(verdict) => return verdict,
        };
        stage = state.advance_event(table, stage, success, counters);
    }
}

#[test]
fn written_events_are_counted() {
    let mut state = WriterState::new();
    let mut counters = Counters::known();
    assert_eq!(
        handle(&mut state, &mut counters, "tx_pushed", true, true, true),
        Verdict::Written
    );
    assert_eq!(
        handle(&mut state, &mut counters, "tx_pushed", true, true, true),
        Verdict::Written
    );
    assert_eq!(counters.get("tx_pushed").map(|c| (c.written, c.errors)), Some((2, 0)));
    assert_eq!(state.table_count(), 1);
    assert_eq!(state.flush_target(0), ("tx_pushed", true));
}

#[test]
fn failed_serialization_is_an_error_and_opens_nothing() {
    let mut state = WriterState::new();
    let mut counters = Counters::known();
    assert_eq!(
        handle(&mut state, &mut counters, "tx_pushed", false, true, true),
        Verdict::SerializeFailed
    );
    assert_eq!(counters.get("tx_pushed").map(|c| (c.written, c.errors)), Some((0, 1)));
    assert_eq!(state.table_count(), 0);
}

#[test]
fn unopened_table_is_disabled_at_once() {
    let mut state = WriterState::new();
    let mut counters = Counters::known();
    assert_eq!(
        handle(&mut state, &mut counters, "tx_pushed", true, false, true),
        Verdict::OpenFailed
    );
    assert_eq!(
        handle(&mut state, &mut counters, "tx_pushed", true, true, true),
        Verdict::Discarded
    );
    assert_eq!(counters.get("tx_pushed").map(|c| (c.written, c.errors)), Some((0, 1)));
    assert_eq!(state.flush_target(0), ("tx_pushed", false));
    // Other tables go on.
    assert_eq!(
        handle(&mut state, &mut counters, "tx_verified", true, true, true),
        Verdict::Written
    );
}

#[test]
fn tenth_failure_in_a_row_disables() {
    let mut state = WriterState::new();
    let mut counters = Counters::known();
    for _ in 0..9 {
        assert_eq!(
            handle(&mut state, &mut counters, "tx_pushed", true, true, false),
            Verdict::WriteFailed
        );
    }
    // A write that succeeds starts the count anew.
    assert_eq!(
        handle(&mut state, &mut counters, "tx_pushed", true, true, true),
        Verdict::Written
    );
    for _ in 0..9 {
        assert_eq!(
            handle(&mut state, &mut counters, "tx_pushed", true, true, false),
            Verdict::WriteFailed
        );
    }
    assert_eq!(
        handle(&mut state, &mut counters, "tx_pushed", true, true, false),
        Verdict::WriteFailedDisabled
    );
    assert_eq!(
        handle(&mut state, &mut counters, "tx_pushed", true, true, true),
        Verdict::Discarded
    );
    assert_eq!(counters.get("tx_pushed").map(|c| (c.written, c.errors)), Some((1, 19)));
}

#[test]
fn failed_flushes_count_towards_the_limit() {
    let mut state = WriterState::new();
    let mut counters = Counters::known();
    handle(&mut state, &mut counters, "tx_pushed", true, true, true);
    for _ in 0..9 {
        assert_eq!(state.after_flush("tx_pushed", false), FlushVerdict::Failed);
    }
    // A flush that succeeds does not end the run of errors.
    assert_eq!(state.after_flush("tx_pushed", true), FlushVerdict::Flushed);
    assert_eq!(state.after_flush("tx_pushed", false), FlushVerdict::FailedDisabled);
    assert_eq!(state.flush_target(0), ("tx_pushed", false));
}

#[test]
fn writer_flushes_after_enough_events_or_time() {
    let mut state = WriterState::new();
    for _ in 1..WRITES_BEFORE_FLUSH {
        assert_eq!(state.on_wake(Wake::Received(Queue::Peer, true)), LoopAction::HandleEvent);
        assert!(!state.flush_due(0));
    }
    assert_eq!(state.on_wake(Wake::Received(Queue::Event, true)), LoopAction::HandleEvent);
    assert!(state.flush_due(0));
    assert!(!state.flush_due(FLUSH_INTERVAL_NANOS - 1));
    assert!(state.flush_due(FLUSH_INTERVAL_NANOS));
}

#[test]
fn writer_wakes_up_for_a_reason() {
    let mut state = WriterState::new();
    assert_eq!(state.on_wake(Wake::Control(true)), LoopAction::DrainAndExit);
    assert_eq!(state.on_wake(Wake::Control(false)), LoopAction::Nothing);
    assert_eq!(state.on_wake(Wake::Received(Queue::Event, false)), LoopAction::Nothing);
    assert_eq!(state.on_wake(Wake::Idle), LoopAction::Flush);
}

#[test]
fn envelopes_are_numbered() {
    let mut ctx = WriterContext::new(0xabc, "node".to_string());
    assert_eq!(ctx.run_id, "00000000000000000000000000000abc");
    let first = ctx.make_envelope_at("tx_pushed", "ts".to_string(), 5, 'x');
    assert_eq!((first.seq, first.monotonic_ns, first.msg), (0, 5, 'x'));
    assert_eq!((first.table, first.ts.as_str()), ("tx_pushed", "ts"));
    assert_eq!(
        (first.run_id.as_str(), first.node_id.as_str()),
        ("00000000000000000000000000000abc", "node")
    );
    let second = ctx.make_envelope("tx_pushed", 'y').expect("the clock has a timestamp");
    assert_eq!(second.seq, 1);
    assert_eq!(second.ts.len(), 24);
    assert!(second.ts.ends_with('Z'));
    assert_eq!(ctx.next_seq(), 2);
    assert!(ctx.wall_clock_ts().is_some());

    let earlier = ctx.monotonic_ns();
    assert!(earlier <= ctx.monotonic_ns());

    ctx.seq = u64::MAX;
    assert_eq!(ctx.next_seq(), u64::MAX);
    assert_eq!(ctx.next_seq(), 0);
}

#[test]
fn envelopes_hold_the_clock_readings() {
    let mut ctx = WriterContext::new(7, "node".to_string());
    let envelope = ctx
        .make_envelope_read("tx_pushed", Some((1_700_000_000, 5_000_000)), (1 << 64) + 9, 'x')
        .expect("the time has a timestamp");
    assert_eq!(envelope.ts, "2023-11-14T22:13:20.005Z");
    assert_eq!((envelope.seq, envelope.monotonic_ns, envelope.msg), (0, 9, 'x'));
    assert_eq!(ctx.seq, 1);

    // A time without a timestamp gives no envelope and takes no number.
    assert!(ctx.make_envelope_read("tx_pushed", Some((253_402_300_800, 0)), 1, 'y').is_none());
    assert!(ctx.make_envelope_read("tx_pushed", None, 1, 'y').is_none());
    assert_eq!(ctx.seq, 1);
}

/// The lines of a run share its identifiers, whatever their tables, and no two have the same
/// number.
#[test]
fn lines_of_a_run_are_told_apart() {
    let mut ctx = WriterContext::new(7, "node".to_string());
    let reading = Some((1_700_000_000, 0));
    let a = ctx.make_envelope_read("tx_pushed", reading, 1, 'x').expect("a timestamp");
    assert!(ctx.make_envelope_read("tx_pushed", None, 2, 'y').is_none());
    let b = ctx.make_envelope_read("peer_message", reading, 3, "text").expect("a timestamp");
    assert_eq!((a.seq, b.seq), (0, 1));
    assert_eq!(a.run_id, b.run_id);
    assert_eq!(a.node_id, b.node_id);
    assert!(a.monotonic_ns < b.monotonic_ns);
}

#[test]
fn low_bits_keep_their_order_for_centuries() {
    assert_eq!(nanos_low_bits(0), 0);
    assert_eq!(nanos_low_bits((1 << 64) - 1), u64::MAX);
    assert_eq!(nanos_low_bits(1 << 64), 0);
    assert!(nanos_low_bits(1_000) <= nanos_low_bits(1_001));
}

#[test]
fn timestamps_are_rfc_3339() {
    assert_eq!(
        timestamp(Some((0, 0))).as_deref(),
        Some("1970-01-01T00:00:00.000Z")
    );
    assert_eq!(
        timestamp(Some((1_700_000_000, 123_456_789))).as_deref(),
        Some("2023-11-14T22:13:20.123Z")
    );
    assert_eq!(
        timestamp(Some((253_402_300_799, 999_999_999))).as_deref(),
        Some("9999-12-31T23:59:59.999Z")
    );
    assert_eq!(timestamp(Some((253_402_300_800, 0))), None);
    assert_eq!(timestamp(None), None);
}

#[test]
fn lines_and_files() {
    assert_eq!(json_line(b"{}".to_vec()), b"{}\n".to_vec());
    assert_eq!(file_name("tx_pushed"), "tx_pushed.jsonl");
    assert_eq!(nanos_low_bits(u128::from(u64::MAX) + 3), 2);
}

#[test]
fn a_file_holds_one_line_per_event() {
    let events = vec![b"{\"a\":1}".to_vec(), b"{}".to_vec(), b"[2]".to_vec()];
    let file: Vec<u8> = events.iter().cloned().flat_map(json_line).collect();
    let text = String::from_utf8(file).expect("the events are text");
    let lines: Vec<Vec<u8>> = text.lines().map(|line| line.as_bytes().to_vec()).collect();
    assert_eq!(lines, events);
}

#[test]
fn different_runs_have_different_ids() {
    let a = WriterContext::new(1 << 127, String::new());
    let b = WriterContext::new((1 << 127) + 1, String::new());
    assert_eq!(a.run_id.len(), 32);
    assert!(a.run_id.chars().all(|c| c.is_ascii_hexdigit()));
    assert_ne!(a.run_id, b.run_id);
}

#[test]
fn only_sent_messages_are_traced() {
    let info = |height: Option<u32>| MessageInfo {
        command: "block".to_string(),
        message_bytes: Some(61),
        block_hash: Some("00ff".to_string()),
        block_height: height,
    };
    let tx = PeerTx::new("192.168.180.9:10000".to_string());

    let (result, event) = tx.finish_send(SendOutcome::<String>::Sent, info(Some(7)));
    assert!(result.is_ok());
    let event = event.expect("a sent message is traced");
    assert_eq!(event.direction, "out");
    assert_eq!(event.command, "block");
    assert_eq!(event.peer_addr, "192.168.180.9:10000");
    assert_eq!(event.message_bytes, Some(61));
    assert_eq!(event.block_hash.as_deref(), Some("00ff"));
    assert_eq!(event.block_height, Some(7));

    let (result, event) = tx.finish_send(SendOutcome::Failed("full".to_string()), info(None));
    assert!(matches!(result, Err(PeerError::Serialization(reason)) if reason == "full"));
    assert!(event.is_none());

    let (result, event) = tx.finish_send(SendOutcome::<String>::TimedOut, info(None));
    assert!(matches!(result, Err(PeerError::ConnectionSendTimeout)));
    assert!(event.is_none());
}
