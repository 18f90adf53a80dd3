//! Recording of timing spans in a fixed-capacity ring buffer, one buffer for
//! each thread, with an export as text and one in binary form, and the layout of
//! a timeline that shows the spans of a binary export.
//!
//! Recording: [`TraceBuffer`] is the buffer, [`_insert_trace`] the insertion,
//! [`TraceSpan`] the guard of one span in flight, [`write_traces_csv`] and
//! [`write_traces_binary`] the two exports. What a buffer holds is a
//! [`ring::Ring`]; [`laws`] states what holds of it after any run of insertions.
//! Counter readings come in as plain numbers, and the exports go out as bytes:
//! reading the counter and writing to a sink are the caller's.
//!
//! Viewing: [`load_args`] takes the bytes of a binary export to the spans to
//! show, [`App`] lays them out, and [`events`] says what each event of the window
//! does to the timeline.

pub mod binary;
pub mod buffer;
pub mod config;
pub mod decimal;
pub mod events;
pub mod guard;
pub mod label;
pub mod laws;
pub mod load;
pub mod record;
pub mod ring;
pub mod select;
pub mod text;
pub mod timeline;

pub use buffer::{
    CapacityTier, TraceBuffer, _insert_trace, write_traces_binary, write_traces_csv,
    TSC_TRACE_CAPACITY,
};
pub use config::{config_builder, ViewerConfig};
pub use guard::TraceSpan;
pub use load::load_args;
pub use record::Span;
pub use timeline::{App, Area, Position};
