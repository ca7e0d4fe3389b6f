//! Events that can be written to a trace file.

use vstd::prelude::*;

verus! {

/// An event that can be written to a trace file.
///
/// Each event type maps to a specific table (file).
pub trait TraceEvent: Send + 'static {
    /// The table of this event type.
    spec fn table_name() -> Seq<char>;

    /// The table name for this event type. Used as the JSONL filename.
    fn table() -> (name: &'static str)
        ensures
            name@ == Self::table_name(),
    ;
}

}
