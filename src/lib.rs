//! Head and tail access to files of densely packed, fixed-size binary records.
//!
//! A record type describes its own on-disk form through [`BinaryEntry`]. The
//! record-window reader is a state machine, [`StreamIn`], that says which seek
//! and which read comes next; whoever holds the file performs them. The same
//! reader runs over an in-memory record file through [`BinaryChunkStream`].

mod codec;
mod flow;
mod stream;
mod chunk;

pub use codec::{BinaryEntry, lemma_i64_round_trip, lemma_u32_round_trip, le_bytes_u32, le_bytes_u64, le_u32, le_u64};
pub use flow::StreamFlow;
pub use stream::{initial_model, probed_model, recorded_model, SeekTarget, Stage, StreamAction, StreamError, StreamIn, StreamModel};
pub use chunk::{
    entry_at, lemma_head_first_entries, lemma_no_count_reads_nothing, lemma_short_file_returns_all,
    lemma_tail_last_entries, stream_spec, window_start, BinaryChunkStream,
};
