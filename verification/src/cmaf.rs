//! The streaming-profile writers: the per-fragment chunk writer and the
//! initialization-segment header writer, with the event-message payload
//! builder they share.
pub mod cmaf_chunk_writer;
pub mod cmaf_header_writer;
pub mod emsg;
