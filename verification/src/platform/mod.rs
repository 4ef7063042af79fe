//! Platform-side input staging: the per-tick buffer that batches and
//! coalesces events, and the processor that builds normalized events from
//! translated platform input. The host's window and event-loop adapter
//! feeds these and sends the drained batches over the channel.

pub mod input_buffer;
pub mod input_processor;

pub use input_buffer::InputBuffer;
pub use input_processor::InputProcessor;
