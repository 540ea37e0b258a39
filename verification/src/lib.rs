//! Capture of plaintext TLS payloads at the boundary of a process's TLS
//! library: the fixed-layout record that crosses from the capture
//! programs to the consumer, the per-function capture pipeline that
//! correlates a hooked call's entry with its return and emits one
//! record per captured call on a per-CPU event channel, and the decoder
//! that renders each consumed record as text or as its hexadecimal
//! fallback.

pub mod capture;
pub mod codec;
pub mod record;
