//! Configuration for structured JSONL tracing.

use vstd::prelude::*;

verus! {

/// Configuration for the structured JSONL tracer.
///
/// When `enabled` is false, a noop tracer is created.
#[derive(Clone, Debug)]
pub struct TracerConfig {
    /// Whether structured tracing is enabled.
    pub enabled: bool,
    /// Directory where JSONL trace files are written.
    pub trace_dir: String,
    /// If non-empty, only these tables are traced.
    /// An empty list means all tables are traced.
    pub tables: Vec<String>,
    /// Capacity of the peer message queue (high-volume).
    pub peer_message_queue_size: usize,
    /// Capacity of the general event queue.
    pub event_queue_size: usize,
    /// A unique identifier for this node, held by every envelope.
    pub node_id: String,
    /// Emit a drop warning every N dropped events per table.
    pub warn_every_dropped: u64,
    /// Emit a drop warning at least once every this many seconds while
    /// drops continue, even if the count threshold has not been reached.
    pub warn_interval_secs: u64,
    /// Maximum number of transaction IDs in a `TxGossiped` event.
    /// Excess IDs are truncated and a `truncated` flag is set.
    pub max_txids_per_event: usize,
}

/// What is wrong with a configuration: the first check that it fails, if any.
pub open spec fn config_fault(config: TracerConfig) -> Option<Seq<char>> {
    if config.peer_message_queue_size == 0 {
        Some("peer_message_queue_size must be > 0"@)
    } else if config.event_queue_size == 0 {
        Some("event_queue_size must be > 0"@)
    } else if config.max_txids_per_event == 0 {
        Some("max_txids_per_event must be > 0"@)
    } else {
        None
    }
}

impl Default for TracerConfig {
    fn default() -> (config: Self)
        ensures
            !config.enabled,
            config.trace_dir@ == "traces"@,
            config.tables@.len() == 0,
            config.peer_message_queue_size == 16_384,
            config.event_queue_size == 4_096,
            config.node_id@.len() == 0,
            config.warn_every_dropped == 1_000,
            config.warn_interval_secs == 30,
            config.max_txids_per_event == 32,
    {
        TracerConfig {
            enabled: false,
            trace_dir: "traces".to_owned(),
            tables: Vec::new(),
            peer_message_queue_size: 16_384,
            event_queue_size: 4_096,
            node_id: String::new(),
            warn_every_dropped: 1_000,
            warn_interval_secs: 30,
            max_txids_per_event: 32,
        }
    }
}

impl TracerConfig {
    /// Validates the configuration, returning an error if settings are invalid.
    pub fn validate(&self) -> (checked: Result<(), String>)
        ensures
            match config_fault(*self) {
                None => checked is Ok,
                Some(fault) => checked matches Err(message) && message@ == fault,
            },
    {
        if self.peer_message_queue_size == 0 {
            return Err("peer_message_queue_size must be > 0".to_owned());
        }
        if self.event_queue_size == 0 {
            return Err("event_queue_size must be > 0".to_owned());
        }
        if self.max_txids_per_event == 0 {
            return Err("max_txids_per_event must be > 0".to_owned());
        }
        Ok(())
    }
}

}
